# TDX and TPM attestation service

A small HTTP service that generates and verifies TDX reports, measures a folder
into a TPM, and quotes the measurement. Its core is a Verus library: everything
that the service decides or computes carries a contract and is proved against
it. The program around the library drives the devices, the files and
`tpm2-tools`, and hands their outcomes to the library as plain values.

## Layout

| Path                   | What it holds                                              |
|------------------------|------------------------------------------------------------|
| `src/api.rs`           | status codes, errors, and what every route answers         |
| `src/attestation.rs`   | what the two TDX devices are asked, and what replies mean  |
| `src/report.rs`        | decoding of a `TDREPORT`                                   |
| `src/logging.rs`       | the lines and the place of the audit log                   |
| `src/tpm/config.rs`    | configuration from the environment                         |
| `src/tpm/nonce.rs`     | challenges                                                 |
| `src/tpm/measure.rs`   | folder measurement, one file system operation at a time    |
| `src/tpm/walk.rs`      | what a folder measurement covers                           |
| `src/tpm/binding.rs`   | what a folder measurement binds                            |
| `src/tpm/command.rs`   | outcomes of `tpm2-*` commands                              |
| `src/tpm/session.rs`   | one request against the TPM, one command at a time         |
| `src/tpm/history.rs`   | what holds of whole sessions                               |
| `src/tpm/verify.rs`    | verification of a combined attestation                     |
| `src/encoding.rs`      | hexadecimal, base64, SHA-256, lossy UTF-8                  |
| `src/calendar.rs`      | dates and times of day                                     |
| `src/paths.rs`         | paths as byte strings                                      |
| `src/text.rs`          | text primitives                                            |
| `app/`                 | Rocket routes, devices, commands, files, the log sink      |
| `tests/`               | tests of the library                                       |

## What is trusted

The codecs and the digest come from the `hex`, `base64` and `sha2` crates, the
reason phrases of status codes from `rocket`, and lossy UTF-8 decoding,
`String::push` and the `Debug` form of a character from the standard library.
What is claimed of them stands at the functions that call them. Beside these,
what Verus itself specifies of the standard library is relied on; everything
else is proved.

## Main properties

* A report is trusted only when the TDX module answered `TDX_SUCCESS`; a missing
  device is a `501`, never a verdict.
* A session measures the configured directory before it issues any command, and
  takes no other measurement. A folder that cannot be measured ends it.
* The PCR is reset before it is extended, with the digest of the folder that was
  measured in the same session, and nothing is quoted before both succeeded.
* A new Attestation Key is created only when the configured handle is empty.
* The folder digest covers exactly the regular files below the root (and links
  to such files). It depends on their relative paths, byte for byte, and their
  contents alone, not on where the folder is or the order in which it is listed,
  and it binds both, unless one of the pairs that the law names collides under
  SHA-256. The names that are listed beside it are for reading.
* What the PCR holds when it is read does not depend on what it held before the
  session: an unchanged directory gives the same folder and the same PCR value
  again. On a PCR of the SHA-256 bank that value is not the folder digest, unless
  SHA-256 collides on the pair that the law names.
* An event of the audit log is one line, whatever it is made of.
* A combined attestation can be handed to verification as it is, and both of its
  halves name the challenge of the request. `tpm2_checkquote` is given the key,
  the message, the signature and the challenge of the structure.
