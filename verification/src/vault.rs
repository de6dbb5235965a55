//! The custodian of the master key.
//!
//! The vault holds the passphrase in memory and nowhere else. Every request is
//! answered in steps: the custodian says which run of the crypto engine it needs,
//! the caller performs it and hands back what happened, and the custodian decides
//! what follows. The engine itself is never called from here.

use crate::text::same_text;
use vstd::prelude::*;

verus! {

/// A request to the custodian, as it arrives.
#[derive(Debug, PartialEq, Eq)]
pub struct CryptTask {
    pub payload: String,
    pub mode: String,
    pub passphrase: Option<String>,
}

/// The custodian's reply, as it leaves.
#[derive(Debug, PartialEq, Eq)]
pub struct CryptResponse {
    pub result: String,
}

/// What a request asks for.
#[derive(Clone, Copy, Debug, PartialEq, Eq, Structural)]
pub enum Mode {
    Check,
    Initialize,
    Import,
    Unlock,
    ExportKey,
    Encrypt,
    Decrypt,
}

/// Whether the vault can be used.
#[derive(Clone, Copy, Debug, PartialEq, Eq, Structural)]
pub enum SealState {
    /// The keyring holds no identity.
    Uninitialized,
    /// An identity exists and no passphrase is held.
    Sealed,
    /// An identity exists and a passphrase is held.
    Unsealed,
}

/// Why the custodian refused or failed.
#[derive(Clone, Copy, Debug, PartialEq, Eq, Structural)]
pub enum VaultError {
    /// No passphrase is held.
    VaultSealed,
    /// An identity exists already; it is never overwritten.
    AlreadyInitialized,
    /// The engine failed or gave nothing back.
    CryptoFailure,
    /// The key parameters or the key material could not be handed to the engine.
    CarrierWrite,
    /// The engine did not generate the identity.
    Generation,
    /// The engine did not import the key material.
    Import,
    /// The passphrase could not be handed to the engine.
    PassphraseCarrier,
}

/// What the custodian is waiting for while the engine runs.
#[derive(Clone, Copy, Debug, PartialEq, Eq, Structural)]
pub enum Pending {
    /// The keyring is asked for the identity, to report the seal state.
    ProbeForCheck,
    /// The keyring is asked for the identity, before one is generated.
    ProbeForInitialize,
    /// The keyring is asked for the identity, before one is imported.
    ProbeForImport,
    /// The engine generates the identity.
    Generate,
    /// The engine imports the key material.
    Import,
    /// The engine exports the private key.
    Export,
    /// The engine encrypts or decrypts the payload.
    Crypt,
}

/// A secret that reaches the engine through a transient file and never through
/// its argument list. The caller creates the file under a fresh name that begins
/// with `path_prefix`, appends that name to the arguments, and removes the file
/// as soon as the engine has ended, whatever the outcome.
#[derive(Debug, PartialEq, Eq)]
pub struct Carrier {
    pub path_prefix: String,
    pub content: String,
}

/// One run of the crypto engine.
#[derive(Debug, PartialEq, Eq)]
pub struct GpgCall {
    pub arguments: Vec<String>,
    pub carrier: Option<Carrier>,
    pub input: String,
}

/// What a run of the crypto engine gave.
#[derive(Debug, PartialEq, Eq)]
pub struct GpgOutcome {
    /// False where the carrier could not be written; the engine then did not run.
    pub carrier_written: bool,
    /// Whether the engine ended with status zero.
    pub success: bool,
    /// What the engine wrote to its standard output.
    pub stdout: String,
}

/// The custodian's answer to a request.
#[derive(Debug, PartialEq, Eq)]
pub enum Answer {
    /// The seal state, for a check.
    Seal(SealState),
    /// The passphrase was taken.
    Unlocked,
    /// The identity was generated or imported.
    Initialized,
    /// The transformed payload, or the armored key.
    Payload(String),
    /// The request was refused or failed.
    Refused(VaultError),
}

/// What the custodian does next.
#[derive(Debug, PartialEq, Eq)]
pub enum Step {
    /// The request is answered.
    Reply(Answer),
    /// The caller runs the engine and comes back with the outcome.
    Call(GpgCall, Pending),
}

/// The vault: the passphrase, held in memory while the process lives.
pub struct Vault {
    passphrase: Option<String>,
}

/// The mathematical content of a `GpgCall`.
pub struct CallView {
    pub arguments: Seq<Seq<char>>,
    pub carrier: Option<(Seq<char>, Seq<char>)>,
    pub input: Seq<char>,
}

/// The mathematical content of an `Answer`.
pub enum AnswerView {
    Seal(SealState),
    Unlocked,
    Initialized,
    Payload(Seq<char>),
    Refused(VaultError),
}

/// The mathematical content of a `Step`.
pub enum StepView {
    Reply(AnswerView),
    Call(CallView, Pending),
}

/// The texts of a list of strings.
pub open spec fn texts(v: Seq<String>) -> Seq<Seq<char>> {
    Seq::new(v.len(), |i: int| v[i]@)
}

/// The text of an optional string; empty where there is none.
pub open spec fn text_or_empty(s: Option<String>) -> Seq<char> {
    match s {
        Some(t) => t@,
        None => Seq::empty(),
    }
}

impl View for GpgCall {
    type V = CallView;

    open spec fn view(&self) -> CallView {
        CallView {
            arguments: texts(self.arguments@),
            carrier: match self.carrier {
                Some(c) => Some((c.path_prefix@, c.content@)),
                None => None,
            },
            input: self.input@,
        }
    }
}

impl View for Answer {
    type V = AnswerView;

    open spec fn view(&self) -> AnswerView {
        match *self {
            Answer::Seal(s) => AnswerView::Seal(s),
            Answer::Unlocked => AnswerView::Unlocked,
            Answer::Initialized => AnswerView::Initialized,
            Answer::Payload(p) => AnswerView::Payload(p@),
            Answer::Refused(e) => AnswerView::Refused(e),
        }
    }
}

impl View for Step {
    type V = StepView;

    open spec fn view(&self) -> StepView {
        match *self {
            Step::Reply(a) => StepView::Reply(a@),
            Step::Call(c, p) => StepView::Call(c@, p),
        }
    }
}

/// What a mode text asks for. Any text that names no other mode asks for
/// encryption.
pub open spec fn mode_of(text: Seq<char>) -> Mode {
    if text == "check"@ {
        Mode::Check
    } else if text == "unlock"@ {
        Mode::Unlock
    } else if text == "initialize"@ {
        Mode::Initialize
    } else if text == "import"@ {
        Mode::Import
    } else if text == "export_key"@ {
        Mode::ExportKey
    } else if text == "decrypt"@ {
        Mode::Decrypt
    } else {
        Mode::Encrypt
    }
}

/// The seal state: uninitialized exactly where no identity exists; otherwise
/// sealed exactly where no passphrase is held.
pub open spec fn seal_state(identity_exists: bool, passphrase_held: bool) -> SealState {
    if !identity_exists {
        SealState::Uninitialized
    } else if !passphrase_held {
        SealState::Sealed
    } else {
        SealState::Unsealed
    }
}

/// The parameters from which the engine generates the identity.
pub open spec fn key_parameters(identity: Seq<char>, passphrase: Seq<char>) -> Seq<char> {
    "Key-Type: RSA\nKey-Length: 4096\nName-Email: "@ + identity
        + "\nExpire-Date: 0\nPassphrase: "@ + passphrase + "\n%commit\n"@
}

/// The run that asks the keyring whether the identity exists.
pub open spec fn probe_call(identity: Seq<char>) -> CallView {
    CallView {
        arguments: seq!["--list-secret-keys"@, identity],
        carrier: None,
        input: Seq::empty(),
    }
}

/// The run that generates the identity, protected by the passphrase.
pub open spec fn generate_call(identity: Seq<char>, passphrase: Seq<char>) -> CallView {
    CallView {
        arguments: seq!["--batch"@, "--generate-key"@],
        carrier: Some(("/tmp/gpg_gen_"@, key_parameters(identity, passphrase))),
        input: Seq::empty(),
    }
}

/// The run that imports key material.
pub open spec fn import_call(key_material: Seq<char>) -> CallView {
    CallView {
        arguments: seq!["--batch"@, "--import"@],
        carrier: Some(("/tmp/gpg_import_"@, key_material)),
        input: Seq::empty(),
    }
}

/// The run that exports the armored private key.
pub open spec fn export_call(identity: Seq<char>) -> CallView {
    CallView {
        arguments: seq!["--export-secret-keys"@, "--armor"@, identity],
        carrier: None,
        input: Seq::empty(),
    }
}

/// The run that encrypts to the identity, or decrypts. The payload goes to the
/// engine's standard input and the passphrase into the carrier.
pub open spec fn crypt_call(
    decrypt: bool,
    identity: Seq<char>,
    passphrase: Seq<char>,
    payload: Seq<char>,
) -> CallView {
    CallView {
        arguments: if decrypt {
            seq!["--batch"@, "--pinentry-mode"@, "loopback"@, "-d"@, "--passphrase-file"@]
        } else {
            seq![
                "--batch"@,
                "--pinentry-mode"@,
                "loopback"@,
                "-e"@,
                "-r"@,
                identity,
                "--armor"@,
                "--passphrase-file"@,
            ]
        },
        carrier: Some(("/dev/shm/gpg_pass_"@, passphrase)),
        input: payload,
    }
}

/// The first step on a request, and the passphrase held after it.
pub open spec fn begin(
    held: Option<Seq<char>>,
    mode: Mode,
    payload: Seq<char>,
    identity: Seq<char>,
) -> (Option<Seq<char>>, StepView) {
    match mode {
        Mode::Check => (held, StepView::Call(probe_call(identity), Pending::ProbeForCheck)),
        Mode::Initialize => (
            held,
            StepView::Call(probe_call(identity), Pending::ProbeForInitialize),
        ),
        Mode::Import => (held, StepView::Call(probe_call(identity), Pending::ProbeForImport)),
        Mode::Unlock => (Some(payload), StepView::Reply(AnswerView::Unlocked)),
        Mode::ExportKey => (held, StepView::Call(export_call(identity), Pending::Export)),
        Mode::Encrypt | Mode::Decrypt => match held {
            None => (held, StepView::Reply(AnswerView::Refused(VaultError::VaultSealed))),
            Some(p) => (
                held,
                StepView::Call(
                    crypt_call(mode == Mode::Decrypt, identity, p, payload),
                    Pending::Crypt,
                ),
            ),
        },
    }
}

/// The step that follows a run of the engine, and the passphrase held after it.
/// `payload` and `passphrase` are those of the request that is being answered.
pub open spec fn resume(
    held: Option<Seq<char>>,
    pending: Pending,
    payload: Seq<char>,
    passphrase: Seq<char>,
    identity: Seq<char>,
    carrier_written: bool,
    success: bool,
    stdout: Seq<char>,
) -> (Option<Seq<char>>, StepView) {
    match pending {
        Pending::ProbeForCheck => (
            held,
            StepView::Reply(AnswerView::Seal(seal_state(success, held is Some))),
        ),
        Pending::ProbeForInitialize => if success {
            (held, StepView::Reply(AnswerView::Refused(VaultError::AlreadyInitialized)))
        } else {
            (held, StepView::Call(generate_call(identity, payload), Pending::Generate))
        },
        Pending::ProbeForImport => if success {
            (held, StepView::Reply(AnswerView::Refused(VaultError::AlreadyInitialized)))
        } else {
            (held, StepView::Call(import_call(payload), Pending::Import))
        },
        Pending::Generate => if !carrier_written {
            (held, StepView::Reply(AnswerView::Refused(VaultError::CarrierWrite)))
        } else if success {
            (Some(payload), StepView::Reply(AnswerView::Initialized))
        } else {
            (held, StepView::Reply(AnswerView::Refused(VaultError::Generation)))
        },
        Pending::Import => if !carrier_written {
            (held, StepView::Reply(AnswerView::Refused(VaultError::CarrierWrite)))
        } else if success {
            (Some(passphrase), StepView::Reply(AnswerView::Initialized))
        } else {
            (held, StepView::Reply(AnswerView::Refused(VaultError::Import)))
        },
        Pending::Export => (held, StepView::Reply(AnswerView::Payload(stdout))),
        Pending::Crypt => if !carrier_written {
            (held, StepView::Reply(AnswerView::Refused(VaultError::PassphraseCarrier)))
        } else if success && stdout.len() > 0 {
            (held, StepView::Reply(AnswerView::Payload(stdout)))
        } else {
            (held, StepView::Reply(AnswerView::Refused(VaultError::CryptoFailure)))
        },
    }
}

/// The text that carries an answer back to the caller.
pub open spec fn answer_text(a: AnswerView) -> Seq<char> {
    match a {
        AnswerView::Seal(SealState::Uninitialized) => "UNINITIALIZED"@,
        AnswerView::Seal(SealState::Sealed) => "SEALED"@,
        AnswerView::Seal(SealState::Unsealed) => "UNSEALED"@,
        AnswerView::Unlocked => "VAULT_UNSEALED"@,
        AnswerView::Initialized => "INITIALIZED"@,
        AnswerView::Payload(p) => p,
        AnswerView::Refused(VaultError::VaultSealed) => "ERROR_VAULT_SEALED"@,
        AnswerView::Refused(VaultError::AlreadyInitialized) => "ERROR_ALREADY_INIT"@,
        AnswerView::Refused(VaultError::CryptoFailure) => Seq::empty(),
        AnswerView::Refused(VaultError::CarrierWrite) => "ERROR_WRITE"@,
        AnswerView::Refused(VaultError::Generation) => "ERROR_GEN"@,
        AnswerView::Refused(VaultError::Import) => "ERROR_IMPORT"@,
        AnswerView::Refused(VaultError::PassphraseCarrier) => "ERROR_MEMORY_WRITE"@,
    }
}

/// Reads the mode of a request.
pub fn parse_mode(mode: &str) -> (m: Mode)
    ensures
        m == mode_of(mode@),
{
    if same_text(mode, "check") {
        Mode::Check
    } else if same_text(mode, "unlock") {
        Mode::Unlock
    } else if same_text(mode, "initialize") {
        Mode::Initialize
    } else if same_text(mode, "import") {
        Mode::Import
    } else if same_text(mode, "export_key") {
        Mode::ExportKey
    } else if same_text(mode, "decrypt") {
        Mode::Decrypt
    } else {
        Mode::Encrypt
    }
}

/// Builds the parameters from which the engine generates the identity.
pub fn build_key_parameters(identity: &str, passphrase: &str) -> (p: String)
    ensures
        p@ == key_parameters(identity@, passphrase@),
{
    let mut p = String::from_str("Key-Type: RSA\nKey-Length: 4096\nName-Email: ");
    p.append(identity);
    p.append("\nExpire-Date: 0\nPassphrase: ");
    p.append(passphrase);
    p.append("\n%commit\n");
    p
}

fn build_probe_call(identity: &str) -> (c: GpgCall)
    ensures
        c@ == probe_call(identity@),
{
    let mut arguments: Vec<String> = Vec::new();
    arguments.push(String::from_str("--list-secret-keys"));
    arguments.push(String::from_str(identity));
    let c = GpgCall { arguments, carrier: None, input: String::new() };
    assert(c@.arguments =~= probe_call(identity@).arguments);
    c
}

fn build_generate_call(identity: &str, passphrase: &str) -> (c: GpgCall)
    ensures
        c@ == generate_call(identity@, passphrase@),
{
    let mut arguments: Vec<String> = Vec::new();
    arguments.push(String::from_str("--batch"));
    arguments.push(String::from_str("--generate-key"));
    let carrier = Carrier {
        path_prefix: String::from_str("/tmp/gpg_gen_"),
        content: build_key_parameters(identity, passphrase),
    };
    let c = GpgCall { arguments, carrier: Some(carrier), input: String::new() };
    assert(c@.arguments =~= generate_call(identity@, passphrase@).arguments);
    c
}

fn build_import_call(key_material: &str) -> (c: GpgCall)
    ensures
        c@ == import_call(key_material@),
{
    let mut arguments: Vec<String> = Vec::new();
    arguments.push(String::from_str("--batch"));
    arguments.push(String::from_str("--import"));
    let carrier = Carrier {
        path_prefix: String::from_str("/tmp/gpg_import_"),
        content: String::from_str(key_material),
    };
    let c = GpgCall { arguments, carrier: Some(carrier), input: String::new() };
    assert(c@.arguments =~= import_call(key_material@).arguments);
    c
}

fn build_export_call(identity: &str) -> (c: GpgCall)
    ensures
        c@ == export_call(identity@),
{
    let mut arguments: Vec<String> = Vec::new();
    arguments.push(String::from_str("--export-secret-keys"));
    arguments.push(String::from_str("--armor"));
    arguments.push(String::from_str(identity));
    let c = GpgCall { arguments, carrier: None, input: String::new() };
    assert(c@.arguments =~= export_call(identity@).arguments);
    c
}

fn build_crypt_call(decrypt: bool, identity: &str, passphrase: &str, payload: &str) -> (c: GpgCall)
    ensures
        c@ == crypt_call(decrypt, identity@, passphrase@, payload@),
{
    let mut arguments: Vec<String> = Vec::new();
    arguments.push(String::from_str("--batch"));
    arguments.push(String::from_str("--pinentry-mode"));
    arguments.push(String::from_str("loopback"));
    if decrypt {
        arguments.push(String::from_str("-d"));
    } else {
        arguments.push(String::from_str("-e"));
        arguments.push(String::from_str("-r"));
        arguments.push(String::from_str(identity));
        arguments.push(String::from_str("--armor"));
    }
    arguments.push(String::from_str("--passphrase-file"));
    let carrier = Carrier {
        path_prefix: String::from_str("/dev/shm/gpg_pass_"),
        content: String::from_str(passphrase),
    };
    let c = GpgCall { arguments, carrier: Some(carrier), input: String::from_str(payload) };
    assert(c@.arguments =~= crypt_call(decrypt, identity@, passphrase@, payload@).arguments);
    c
}

impl Vault {
    /// The passphrase that the vault holds, if any.
    pub closed spec fn held(&self) -> Option<Seq<char>> {
        match self.passphrase {
            Some(p) => Some(p@),
            None => None,
        }
    }

    /// The vault of a process that has just started: it holds no passphrase.
    pub fn new() -> (v: Vault)
        ensures
            v.held() is None,
    {
        Vault { passphrase: None }
    }

    /// Whether a passphrase is held.
    pub fn is_unsealed(&self) -> (r: bool)
        ensures
            r == (self.held() is Some),
    {
        self.passphrase.is_some()
    }

    /// The seal state, given whether the keyring holds the identity. Changes nothing.
    pub fn check(&self, identity_exists: bool) -> (s: SealState)
        ensures
            s == seal_state(identity_exists, self.held() is Some),
            (s == SealState::Uninitialized) <==> !identity_exists,
            (s == SealState::Sealed) <==> (identity_exists && self.held() is None),
            (s == SealState::Unsealed) <==> (identity_exists && self.held() is Some),
    {
        if !identity_exists {
            SealState::Uninitialized
        } else if self.passphrase.is_none() {
            SealState::Sealed
        } else {
            SealState::Unsealed
        }
    }

    /// Takes the passphrase, whatever it is and whatever was held before. Whether
    /// it fits the identity shows at the first use.
    pub fn unlock(&mut self, passphrase: String)
        ensures
            final(self).held() == Some(passphrase@),
    {
        self.passphrase = Some(passphrase);
    }
}

/// Begins to answer a request: either the answer itself, or the run of the
/// engine that the answer needs.
pub fn process_gpg(vault: &mut Vault, task: &CryptTask, identity: &str) -> (step: Step)
    ensures
        (final(vault).held(), step@) == begin(
            old(vault).held(),
            mode_of(task.mode@),
            task.payload@,
            identity@,
        ),
{
    let mode = parse_mode(task.mode.as_str());
    match mode {
        Mode::Check => Step::Call(build_probe_call(identity), Pending::ProbeForCheck),
        Mode::Initialize => Step::Call(build_probe_call(identity), Pending::ProbeForInitialize),
        Mode::Import => Step::Call(build_probe_call(identity), Pending::ProbeForImport),
        Mode::Unlock => {
            vault.unlock(task.payload.clone());
            Step::Reply(Answer::Unlocked)
        },
        Mode::ExportKey => Step::Call(build_export_call(identity), Pending::Export),
        Mode::Encrypt | Mode::Decrypt => {
            match &vault.passphrase {
                None => Step::Reply(Answer::Refused(VaultError::VaultSealed)),
                Some(p) => {
                    let decrypt = match mode {
                        Mode::Decrypt => true,
                        _ => false,
                    };
                    Step::Call(
                        build_crypt_call(decrypt, identity, p.as_str(), task.payload.as_str()),
                        Pending::Crypt,
                    )
                },
            }
        },
    }
}

/// Goes on with a request after the engine has run.
pub fn resume_gpg(
    vault: &mut Vault,
    task: &CryptTask,
    identity: &str,
    pending: Pending,
    outcome: GpgOutcome,
) -> (step: Step)
    ensures
        (final(vault).held(), step@) == resume(
            old(vault).held(),
            pending,
            task.payload@,
            text_or_empty(task.passphrase),
            identity@,
            outcome.carrier_written,
            outcome.success,
            outcome.stdout@,
        ),
{
    match pending {
        Pending::ProbeForCheck => Step::Reply(Answer::Seal(vault.check(outcome.success))),
        Pending::ProbeForInitialize => {
            if outcome.success {
                Step::Reply(Answer::Refused(VaultError::AlreadyInitialized))
            } else {
                Step::Call(
                    build_generate_call(identity, task.payload.as_str()),
                    Pending::Generate,
                )
            }
        },
        Pending::ProbeForImport => {
            if outcome.success {
                Step::Reply(Answer::Refused(VaultError::AlreadyInitialized))
            } else {
                Step::Call(build_import_call(task.payload.as_str()), Pending::Import)
            }
        },
        Pending::Generate => {
            if !outcome.carrier_written {
                Step::Reply(Answer::Refused(VaultError::CarrierWrite))
            } else if outcome.success {
                vault.unlock(task.payload.clone());
                Step::Reply(Answer::Initialized)
            } else {
                Step::Reply(Answer::Refused(VaultError::Generation))
            }
        },
        Pending::Import => {
            if !outcome.carrier_written {
                Step::Reply(Answer::Refused(VaultError::CarrierWrite))
            } else if outcome.success {
                let passphrase = match &task.passphrase {
                    Some(p) => p.clone(),
                    None => String::new(),
                };
                vault.unlock(passphrase);
                Step::Reply(Answer::Initialized)
            } else {
                Step::Reply(Answer::Refused(VaultError::Import))
            }
        },
        Pending::Export => Step::Reply(Answer::Payload(outcome.stdout)),
        Pending::Crypt => {
            if !outcome.carrier_written {
                Step::Reply(Answer::Refused(VaultError::PassphraseCarrier))
            } else if outcome.success && !outcome.stdout.as_str().is_empty() {
                Step::Reply(Answer::Payload(outcome.stdout))
            } else {
                Step::Reply(Answer::Refused(VaultError::CryptoFailure))
            }
        },
    }
}

/// Puts an answer into the reply that goes back to the caller.
pub fn respond(answer: Answer) -> (r: CryptResponse)
    ensures
        r.result@ == answer_text(answer@),
{
    let result = match answer {
        Answer::Seal(SealState::Uninitialized) => String::from_str("UNINITIALIZED"),
        Answer::Seal(SealState::Sealed) => String::from_str("SEALED"),
        Answer::Seal(SealState::Unsealed) => String::from_str("UNSEALED"),
        Answer::Unlocked => String::from_str("VAULT_UNSEALED"),
        Answer::Initialized => String::from_str("INITIALIZED"),
        Answer::Payload(p) => p,
        Answer::Refused(VaultError::VaultSealed) => String::from_str("ERROR_VAULT_SEALED"),
        Answer::Refused(VaultError::AlreadyInitialized) => String::from_str("ERROR_ALREADY_INIT"),
        Answer::Refused(VaultError::CryptoFailure) => String::new(),
        Answer::Refused(VaultError::CarrierWrite) => String::from_str("ERROR_WRITE"),
        Answer::Refused(VaultError::Generation) => String::from_str("ERROR_GEN"),
        Answer::Refused(VaultError::Import) => String::from_str("ERROR_IMPORT"),
        Answer::Refused(VaultError::PassphraseCarrier) => String::from_str("ERROR_MEMORY_WRITE"),
    };
    CryptResponse { result }
}

} // verus!
