//! Configuration of the TPM backend: names, defaults and how the environment
//! overrides them.

use crate::paths;
use crate::text;
use vstd::prelude::*;
use vstd::utf8::*;

verus! {

/// Backend name reported by `/information_tpm`.
pub const BACKEND_NAME: &'static str = "tpm2-tools";

/// Default TPM PCR the folder digest is extended into.
///
/// PCR 16 is a debug PCR: it is resettable from locality 0, which is exactly
/// what the deterministic "reset, extend, read" cycle needs.
pub const DEFAULT_PCR_INDEX: u32 = 16;

/// Default hash bank.
pub const DEFAULT_HASH_ALGORITHM: &'static str = "sha256";

/// Default TCTI: the Microsoft simulator protocol on the local simulator.
pub const DEFAULT_TCTI: &'static str = "mssim:host=127.0.0.1,port=2321";

/// Default persistent handle of the Attestation Key.
pub const DEFAULT_AK_HANDLE: &'static str = "0x81010002";

/// Default location of the simulator deployment, relative to the project root.
pub const DEFAULT_SIMULATOR_DIR: &'static str = "tpm-simu";

/// `TPM2B_DATA` upper bound for `Quote.qualifyingData` (the challenge/nonce).
pub const MAX_QUALIFYING_DATA_LEN: usize = 64;

/// Environment variable holding the directory to measure.
pub const ENV_MEASURE_DIR: &'static str = "TPM_MEASURE_DIR";

/// Environment variable holding the PCR index (decimal).
pub const ENV_PCR_INDEX: &'static str = "TPM_PCR_INDEX";

/// Environment variable holding the hash bank (`sha256`, `sha384`, ...).
pub const ENV_HASH_ALGORITHM: &'static str = "TPM_HASH_ALGORITHM";

/// Environment variable holding the tpm2-tools TCTI string.
pub const ENV_TCTI: &'static str = "TPM_TCTI";

/// Environment variable holding the persistent AK handle.
pub const ENV_AK_HANDLE: &'static str = "TPM_AK_HANDLE";

/// Environment variable holding the simulator deployment directory.
pub const ENV_SIMULATOR_DIR: &'static str = "TPM_SIMULATOR_DIR";

/// Status code: success.
pub const RC_SUCCESS: u32 = 0;

/// Status code: the folder could not be measured.
pub const RC_MEASURE_FAIL: u32 = 9001;

/// Status code: the request body was not usable.
pub const RC_REQUEST_ERROR: u32 = 9002;

/// Status code: the TPM quote failed.
pub const RC_QUOTE_FAIL: u32 = 9003;

/// Everything the TPM backend needs to know, resolved once at startup.
///
/// Values come from the environment so that the deployment (rather than the
/// source) decides which directory is measured and which TPM is talked to.
/// Paths are byte strings, see [`crate::paths`].
#[derive(Debug, Clone, PartialEq, Eq)]
pub struct TpmConfig {
    /// Directory whose contents are measured.
    pub measure_dir: Vec<u8>,
    /// PCR the folder digest is extended into.
    pub pcr_index: u32,
    /// Hash bank used for the quote.
    pub hash_algorithm: String,
    /// TCTI passed to every `tpm2-*` invocation.
    pub tcti: String,
    /// Persistent handle of the Attestation Key.
    pub ak_handle: String,
    /// Simulator deployment directory (reported by `/information_tpm`).
    pub simulator_dir: Vec<u8>,
}

/// The mathematical view of a [`TpmConfig`].
#[verifier::ext_equal]
pub struct ConfigModel {
    pub measure_dir: Seq<u8>,
    pub pcr_index: u32,
    pub hash_algorithm: Seq<char>,
    pub tcti: Seq<char>,
    pub ak_handle: Seq<char>,
    pub simulator_dir: Seq<u8>,
}

impl View for TpmConfig {
    type V = ConfigModel;

    open spec fn view(&self) -> ConfigModel {
        ConfigModel {
            measure_dir: self.measure_dir@,
            pcr_index: self.pcr_index,
            hash_algorithm: self.hash_algorithm@,
            tcti: self.tcti@,
            ak_handle: self.ak_handle@,
            simulator_dir: self.simulator_dir@,
        }
    }
}

impl ConfigModel {
    /// The tpm2-tools PCR selection, such as `sha256:16`.
    pub open spec fn selection(self) -> Seq<char> {
        self.hash_algorithm + ":"@ + text::decimal_text(self.pcr_index as nat)
    }
}

/// What the environment says about the configuration. `None` stands for a
/// variable that is not set, or, for a text, whose value is not Unicode.
#[derive(Debug, Clone, PartialEq, Eq)]
pub struct TpmEnvironment {
    /// The value of [`ENV_MEASURE_DIR`].
    pub measure_dir: Option<Vec<u8>>,
    /// The value of [`ENV_PCR_INDEX`].
    pub pcr_index: Option<String>,
    /// The value of [`ENV_HASH_ALGORITHM`].
    pub hash_algorithm: Option<String>,
    /// The value of [`ENV_TCTI`].
    pub tcti: Option<String>,
    /// The value of [`ENV_AK_HANDLE`].
    pub ak_handle: Option<String>,
    /// The value of [`ENV_SIMULATOR_DIR`].
    pub simulator_dir: Option<Vec<u8>>,
}

/// The configuration of a deployment under `root` that sets no variable.
pub open spec fn default_config(root: Seq<u8>) -> ConfigModel {
    ConfigModel {
        measure_dir: paths::joined(root, encode_utf8("src"@)),
        pcr_index: DEFAULT_PCR_INDEX,
        hash_algorithm: DEFAULT_HASH_ALGORITHM@,
        tcti: DEFAULT_TCTI@,
        ak_handle: DEFAULT_AK_HANDLE@,
        simulator_dir: encode_utf8(DEFAULT_SIMULATOR_DIR@),
    }
}

/// The path that a variable sets, or `fallback`.
pub open spec fn path_or(value: Option<Vec<u8>>, fallback: Seq<u8>) -> Seq<u8> {
    match value {
        Some(path) => path@,
        None => fallback,
    }
}

/// The text that a variable sets, as it stands, or `fallback` when it is not
/// set or blank.
pub open spec fn text_or(value: Option<String>, fallback: Seq<char>) -> Seq<char> {
    match value {
        Some(set) if text::trimmed(set@).len() > 0 => set@,
        _ => fallback,
    }
}

/// The number that a variable sets, or `fallback` when it is not set or, with
/// the white space around it removed, no unsigned decimal number of 32 bits.
pub open spec fn number_or(value: Option<String>, fallback: u32) -> u32 {
    match value {
        Some(set) => match text::unsigned_value(text::trimmed(set@)) {
            Some(number) => number,
            None => fallback,
        },
        None => fallback,
    }
}

/// The configuration of a deployment under `root` in the environment `env`.
pub open spec fn resolved_config(env: TpmEnvironment, root: Seq<u8>) -> ConfigModel {
    let defaults = default_config(root);
    ConfigModel {
        measure_dir: path_or(env.measure_dir, defaults.measure_dir),
        pcr_index: number_or(env.pcr_index, defaults.pcr_index),
        hash_algorithm: text_or(env.hash_algorithm, defaults.hash_algorithm),
        tcti: text_or(env.tcti, defaults.tcti),
        ak_handle: text_or(env.ak_handle, defaults.ak_handle),
        simulator_dir: path_or(env.simulator_dir, defaults.simulator_dir),
    }
}

/// The directory measured when `TPM_MEASURE_DIR` is not set: the `src/`
/// directory of the project at `root`. It always exists next to a build of the
/// service, it is small, and - unlike the project root - it does not contain
/// the simulator's `NVChip`, which changes every time the TPM is written to.
pub fn default_measure_dir(root: &[u8]) -> (r: Vec<u8>)
    ensures
        r@ == paths::joined(root@, encode_utf8("src"@)),
{
    paths::join(root, "src".as_bytes())
}

impl TpmConfig {
    /// The configuration of a deployment under `root` that sets no variable.
    pub fn default(root: &[u8]) -> (r: Self)
        ensures
            r@ == default_config(root@),
    {
        TpmConfig {
            measure_dir: default_measure_dir(root),
            pcr_index: DEFAULT_PCR_INDEX,
            hash_algorithm: DEFAULT_HASH_ALGORITHM.to_string(),
            tcti: DEFAULT_TCTI.to_string(),
            ak_handle: DEFAULT_AK_HANDLE.to_string(),
            simulator_dir: paths::copy_bytes(DEFAULT_SIMULATOR_DIR.as_bytes()),
        }
    }

    /// Builds the configuration of a deployment under `root` from the
    /// environment, falling back to defaults.
    pub fn from_env(env: TpmEnvironment, root: &[u8]) -> (r: Self)
        ensures
            r@ == resolved_config(env, root@),
    {
        let defaults = TpmConfig::default(root);
        let pcr_index: u32 = match env.pcr_index {
            Some(set) => {
                let bare = text::trim(set.as_str());
                match text::parse_u32(bare.as_str()) {
                    Some(number) => number,
                    None => defaults.pcr_index,
                }
            },
            None => defaults.pcr_index,
        };
        TpmConfig {
            measure_dir: match env.measure_dir {
                Some(path) => path,
                None => defaults.measure_dir,
            },
            pcr_index,
            hash_algorithm: text_unless_blank(env.hash_algorithm, defaults.hash_algorithm),
            tcti: text_unless_blank(env.tcti, defaults.tcti),
            ak_handle: text_unless_blank(env.ak_handle, defaults.ak_handle),
            simulator_dir: match env.simulator_dir {
                Some(path) => path,
                None => defaults.simulator_dir,
            },
        }
    }

    /// `sha256:16` - the tpm2-tools PCR selection for this configuration.
    pub fn pcr_selection(&self) -> (r: String)
        ensures
            r@ == self@.selection(),
    {
        let mut out = self.hash_algorithm.clone();
        out.append(":");
        out.append(text::decimal(self.pcr_index as u128).as_str());
        out
    }

    /// A copy of the configuration.
    pub fn copy(&self) -> (r: Self)
        ensures
            r@ == self@,
    {
        TpmConfig {
            measure_dir: paths::copy_bytes(self.measure_dir.as_slice()),
            pcr_index: self.pcr_index,
            hash_algorithm: self.hash_algorithm.clone(),
            tcti: self.tcti.clone(),
            ak_handle: self.ak_handle.clone(),
            simulator_dir: paths::copy_bytes(self.simulator_dir.as_slice()),
        }
    }
}

/// The text that a variable sets, or `fallback` when it is not set or blank.
fn text_unless_blank(value: Option<String>, fallback: String) -> (r: String)
    ensures
        r@ == text_or(value, fallback@),
{
    match value {
        Some(set) => {
            let bare = text::trim(set.as_str());
            if bare.as_str().unicode_len() == 0 {
                fallback
            } else {
                set
            }
        },
        None => fallback,
    }
}

// ---------------------------------------------------------------------------
// Laws
// ---------------------------------------------------------------------------

/// Every setting is what its own variable says, and what the documentation
/// names where the variable says nothing: a path that is not set, a text that
/// is not set or blank, a number that is not set or no number of 32 bits.
pub proof fn law_the_environment_decides(env: TpmEnvironment, root: Seq<u8>, n: nat)
    ensures
        ({
            let config = resolved_config(env, root);
            &&& env.measure_dir matches Some(dir) ==> config.measure_dir == dir@
            &&& env.measure_dir is None ==> config.measure_dir == paths::joined(
                root,
                seq![115u8, 114u8, 99u8],
            )
            &&& env.simulator_dir matches Some(dir) ==> config.simulator_dir == dir@
            &&& env.simulator_dir is None ==> config.simulator_dir == encode_utf8("tpm-simu"@)
            &&& env.pcr_index is None ==> config.pcr_index == 16
            &&& env.pcr_index matches Some(set) ==> {
                &&& n <= u32::MAX && text::trimmed(set@) == text::decimal_text(n)
                    ==> config.pcr_index == n
                &&& text::unsigned_value(text::trimmed(set@)) is None ==> config.pcr_index == 16
                &&& text::unsigned_value(text::trimmed(set@)) matches Some(v) ==> config.pcr_index
                    == v
            }
            &&& config.hash_algorithm == said(env.hash_algorithm, "sha256"@)
            &&& config.tcti == said(env.tcti, "mssim:host=127.0.0.1,port=2321"@)
            &&& config.ak_handle == said(env.ak_handle, "0x81010002"@)
        }),
{
    assert(encode_utf8("src"@) == seq![115u8, 114u8, 99u8]) by {
        reveal_strlit("src");
        is_ascii_chars_encode_utf8("src"@);
        assert(encode_utf8("src"@) =~= seq![115u8, 114u8, 99u8]);
    }
    text::law_numbers_are_read_back(n);
    lemma_said(env.hash_algorithm, "sha256"@);
    lemma_said(env.tcti, "mssim:host=127.0.0.1,port=2321"@);
    lemma_said(env.ak_handle, "0x81010002"@);
}

/// The text of a variable, if it is set and any of its characters is no white
/// space; `otherwise` if not.
pub open spec fn said(value: Option<String>, otherwise: Seq<char>) -> Seq<char> {
    match value {
        Some(set) => if exists|i: int| 0 <= i < set@.len() && !text::white_space(#[trigger] set@[i]) {
            set@
        } else {
            otherwise
        },
        None => otherwise,
    }
}

/// A text is blank when it is white space all through.
proof fn lemma_said(value: Option<String>, otherwise: Seq<char>)
    ensures
        text_or(value, otherwise) == said(value, otherwise),
{
    if let Some(set) = value {
        let (from, to) = text::law_trimming_cuts_white_space_off_the_ends(set@);
        if from < to {
            assert(!text::white_space(set@[from]));
        }
    }
}

/// Variables do not interfere: a setting depends on its own variable only, and
/// only the measured directory on where the project is.
pub proof fn law_settings_are_independent(
    a: TpmEnvironment,
    b: TpmEnvironment,
    root_a: Seq<u8>,
    root_b: Seq<u8>,
)
    ensures
        ({
            let (x, y) = (resolved_config(a, root_a), resolved_config(b, root_b));
            &&& a.measure_dir == b.measure_dir && (root_a == root_b || a.measure_dir is Some)
                ==> x.measure_dir == y.measure_dir
            &&& a.pcr_index == b.pcr_index ==> x.pcr_index == y.pcr_index
            &&& a.hash_algorithm == b.hash_algorithm ==> x.hash_algorithm == y.hash_algorithm
            &&& a.tcti == b.tcti ==> x.tcti == y.tcti
            &&& a.ak_handle == b.ak_handle ==> x.ak_handle == y.ak_handle
            &&& a.simulator_dir == b.simulator_dir ==> x.simulator_dir == y.simulator_dir
        }),
{
}

/// A deployment that sets no variable has the default configuration.
pub proof fn law_defaults_apply_without_an_environment(env: TpmEnvironment, root: Seq<u8>)
    requires
        env.measure_dir is None,
        env.pcr_index is None,
        env.hash_algorithm is None,
        env.tcti is None,
        env.ak_handle is None,
        env.simulator_dir is None,
    ensures
        resolved_config(env, root) == default_config(root),
{
}

/// The PCR selection names the configured bank, then the configured PCR.
pub proof fn law_selection_names_bank_and_pcr(config: ConfigModel)
    ensures
        ({
            let n = config.hash_algorithm.len() as int;
            let selection = config.selection();
            &&& selection.take(n) == config.hash_algorithm
            &&& selection[n] == ':'
            &&& selection.skip(n + 1) == text::decimal_text(config.pcr_index as nat)
        }),
{
    reveal_strlit(":");
    let n = config.hash_algorithm.len() as int;
    assert(config.selection().take(n) == config.hash_algorithm);
    assert(config.selection().skip(n + 1) == text::decimal_text(config.pcr_index as nat));
}

/// The names and numbers that the service is known by.
pub proof fn law_names_and_numbers()
    ensures
        ENV_MEASURE_DIR@ == "TPM_MEASURE_DIR"@,
        ENV_PCR_INDEX@ == "TPM_PCR_INDEX"@,
        ENV_HASH_ALGORITHM@ == "TPM_HASH_ALGORITHM"@,
        ENV_TCTI@ == "TPM_TCTI"@,
        ENV_AK_HANDLE@ == "TPM_AK_HANDLE"@,
        ENV_SIMULATOR_DIR@ == "TPM_SIMULATOR_DIR"@,
        BACKEND_NAME@ == "tpm2-tools"@,
        MAX_QUALIFYING_DATA_LEN == 64,
        RC_SUCCESS == 0,
        RC_MEASURE_FAIL == 9001,
        RC_REQUEST_ERROR == 9002,
        RC_QUOTE_FAIL == 9003,
{
}

} // verus!
