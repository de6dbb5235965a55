//! The custodian as the engine sees it: setting the vault up, unlocking it, and
//! asking after it.
//!
//! Unlocking alone proves nothing, since the custodian takes any passphrase. So
//! an unlock is followed by a round trip: a known text is encrypted and
//! decrypted again, and only where it comes back as it went is the key accepted.

use crate::effect::{
    ask, build_ask, finish, finished, Effect, EffectView, Event, EventView, TreeError, Turn,
    TurnView,
};
use crate::models::BunkerTask;
use crate::text::{chars_of, same_chars, same_text, trim, trimmed};
use vstd::prelude::*;

verus! {

/// The text that goes through the custodian and back to prove a key.
pub const CANARY: &'static str = "TALOS_VERIFY_SEQ";

/// The request that sets the vault up under a new passphrase.
#[derive(Debug, PartialEq, Eq)]
pub struct InitializeRequest {
    pub key: String,
}

/// The request that sets the vault up from exported key material.
#[derive(Debug, PartialEq, Eq)]
pub struct ImportRequest {
    pub key: String,
    pub passphrase: String,
}

/// The request that unlocks the vault.
#[derive(Debug, PartialEq, Eq)]
pub struct UnlockRequest {
    pub key: String,
}

/// The stages of setting the vault up.
#[derive(Clone, Copy, Debug, PartialEq, Eq, Structural)]
pub enum InitializeStage {
    /// The custodian is asked for the seal state.
    Check,
    /// The custodian is generating the identity.
    Asked,
}

/// The stages of unlocking.
#[derive(Clone, Copy, Debug, PartialEq, Eq, Structural)]
pub enum UnlockStage {
    /// The custodian is taking the passphrase.
    Unlock,
    /// The custodian is encrypting the canary.
    Encrypt,
    /// The custodian is decrypting the canary.
    Decrypt,
}

/// The one stage of an operation that asks the custodian once.
#[derive(Clone, Copy, Debug, PartialEq, Eq, Structural)]
pub enum AskStage {
    Asked,
}

/// The first turn of setting the vault up.
pub open spec fn initialize_first() -> TurnView<InitializeStage> {
    TurnView::Do(ask(Seq::empty(), "check"@), InitializeStage::Check)
}

/// The turn that follows `event` at `stage` of setting the vault up under `key`.
/// The identity is generated only where the custodian reports that there is none.
pub open spec fn initialize_then(key: Seq<char>, stage: InitializeStage, event: EventView) -> TurnView<
    InitializeStage,
> {
    match stage {
        InitializeStage::Check => match event {
            EventView::Text { text } => if text == "UNINITIALIZED"@ {
                TurnView::Do(ask(key, "initialize"@), InitializeStage::Asked)
            } else {
                TurnView::Finish(Err(TreeError::AlreadyInitialized))
            },
            EventView::Unreadable => TurnView::Finish(Err(TreeError::AlreadyInitialized)),
            _ => TurnView::Finish(Err(TreeError::BackendUnreachable)),
        },
        InitializeStage::Asked => match event {
            EventView::Text { text } => if text == "INITIALIZED"@ {
                TurnView::Finish(finished("initialized"@))
            } else if text == "ERROR_ALREADY_INIT"@ {
                TurnView::Finish(Err(TreeError::AlreadyInitialized))
            } else {
                TurnView::Finish(Err(TreeError::InitializationFailed))
            },
            EventView::Unreadable => TurnView::Finish(Err(TreeError::InitializationFailed)),
            _ => TurnView::Finish(Err(TreeError::BackendUnreachable)),
        },
    }
}

/// The first turn of importing a key.
pub open spec fn import_first(key: Seq<char>, passphrase: Seq<char>) -> TurnView<AskStage> {
    TurnView::Do(
        EffectView::AskVault { payload: key, mode: "import"@, passphrase: Some(passphrase) },
        AskStage::Asked,
    )
}

/// The end of importing a key.
pub open spec fn import_then(event: EventView) -> TurnView<AskStage> {
    match event {
        EventView::Text { text } => if text == "INITIALIZED"@ {
            TurnView::Finish(finished("imported"@))
        } else if text == "ERROR_ALREADY_INIT"@ {
            TurnView::Finish(Err(TreeError::AlreadyInitialized))
        } else {
            TurnView::Finish(Err(TreeError::ImportFailed))
        },
        _ => TurnView::Finish(Err(TreeError::ImportFailed)),
    }
}

/// The first turn of exporting the key.
pub open spec fn backup_first() -> TurnView<AskStage> {
    TurnView::Do(ask(Seq::empty(), "export_key"@), AskStage::Asked)
}

/// The end of exporting the key: the armored key, or nothing where the vault
/// holds no identity.
pub open spec fn backup_then(event: EventView) -> TurnView<AskStage> {
    match event {
        EventView::Text { text } => TurnView::Finish(finished(text)),
        EventView::Unreadable => TurnView::Finish(finished(Seq::empty())),
        _ => TurnView::Finish(Err(TreeError::ExportFailed)),
    }
}

/// The first turn of unlocking with `key`.
pub open spec fn unlock_first(key: Seq<char>) -> TurnView<UnlockStage> {
    TurnView::Do(ask(key, "unlock"@), UnlockStage::Unlock)
}

/// The turn that follows `event` at `stage` of unlocking.
pub open spec fn unlock_then(stage: UnlockStage, event: EventView) -> TurnView<UnlockStage> {
    match stage {
        UnlockStage::Unlock => match event {
            EventView::Text { .. } | EventView::Unreadable => TurnView::Do(
                ask(CANARY@, "encrypt"@),
                UnlockStage::Encrypt,
            ),
            _ => TurnView::Finish(Err(TreeError::BackendUnreachable)),
        },
        UnlockStage::Encrypt => match event {
            EventView::Text { text } => TurnView::Do(ask(text, "decrypt"@), UnlockStage::Decrypt),
            EventView::Unreadable => TurnView::Do(
                ask(Seq::empty(), "decrypt"@),
                UnlockStage::Decrypt,
            ),
            _ => TurnView::Finish(Err(TreeError::KeyRejectedEncrypting)),
        },
        UnlockStage::Decrypt => match event {
            EventView::Text { text } => if trimmed(text) == CANARY@ {
                TurnView::Finish(finished("unlocked"@))
            } else {
                TurnView::Finish(Err(TreeError::InvalidMasterKey))
            },
            EventView::Unreadable => TurnView::Finish(Err(TreeError::InvalidMasterKey)),
            _ => TurnView::Finish(Err(TreeError::KeyRejectedDecrypting)),
        },
    }
}

/// The first turn of asking after the custodian.
pub open spec fn health_first() -> TurnView<AskStage> {
    TurnView::Do(ask(Seq::empty(), "check"@), AskStage::Asked)
}

/// The end of asking after the custodian: what it reports of itself, `ERROR`
/// where its reply cannot be read, `OFFLINE` where it cannot be reached.
pub open spec fn health_then(event: EventView) -> TurnView<AskStage> {
    match event {
        EventView::Text { text } => TurnView::Finish(finished(text)),
        EventView::Unreadable => TurnView::Finish(finished("ERROR"@)),
        _ => TurnView::Finish(finished("OFFLINE"@)),
    }
}

fn say<S>(t: &str) -> (turn: Turn<S>)
    ensures
        turn@ == TurnView::<S>::Finish(finished(t@)),
{
    finish(String::from_str(t))
}

/// Begins to set the vault up.
pub fn initialize_bunker(req: &InitializeRequest) -> (turn: Turn<InitializeStage>)
    ensures
        turn@ == initialize_first(),
{
    Turn::Do(build_ask(String::new(), "check"), InitializeStage::Check)
}

/// Goes on with setting the vault up after an effect.
pub fn initialize_bunker_next(req: &InitializeRequest, stage: InitializeStage, event: Event) -> (turn:
    Turn<InitializeStage>)
    ensures
        turn@ == initialize_then(req.key@, stage, event@),
{
    match stage {
        InitializeStage::Check => match event {
            Event::Text { text } => {
                if same_text(text.as_str(), "UNINITIALIZED") {
                    Turn::Do(build_ask(req.key.clone(), "initialize"), InitializeStage::Asked)
                } else {
                    Turn::Finish(Err(TreeError::AlreadyInitialized))
                }
            },
            Event::Unreadable => Turn::Finish(Err(TreeError::AlreadyInitialized)),
            _ => Turn::Finish(Err(TreeError::BackendUnreachable)),
        },
        InitializeStage::Asked => match event {
            Event::Text { text } => {
                if same_text(text.as_str(), "INITIALIZED") {
                    say("initialized")
                } else if same_text(text.as_str(), "ERROR_ALREADY_INIT") {
                    Turn::Finish(Err(TreeError::AlreadyInitialized))
                } else {
                    Turn::Finish(Err(TreeError::InitializationFailed))
                }
            },
            Event::Unreadable => Turn::Finish(Err(TreeError::InitializationFailed)),
            _ => Turn::Finish(Err(TreeError::BackendUnreachable)),
        },
    }
}

/// Begins to import a key.
pub fn import_bunker_key(req: &ImportRequest) -> (turn: Turn<AskStage>)
    ensures
        turn@ == import_first(req.key@, req.passphrase@),
{
    Turn::Do(
        Effect::AskVault {
            task: BunkerTask { payload: req.key.clone(), mode: String::from_str("import") },
            passphrase: Some(req.passphrase.clone()),
        },
        AskStage::Asked,
    )
}

/// Ends the import of a key.
pub fn import_bunker_key_next(event: Event) -> (turn: Turn<AskStage>)
    ensures
        turn@ == import_then(event@),
{
    match event {
        Event::Text { text } => {
            if same_text(text.as_str(), "INITIALIZED") {
                say("imported")
            } else if same_text(text.as_str(), "ERROR_ALREADY_INIT") {
                Turn::Finish(Err(TreeError::AlreadyInitialized))
            } else {
                Turn::Finish(Err(TreeError::ImportFailed))
            }
        },
        _ => Turn::Finish(Err(TreeError::ImportFailed)),
    }
}

/// Begins to export the key.
pub fn backup_bunker_key() -> (turn: Turn<AskStage>)
    ensures
        turn@ == backup_first(),
{
    Turn::Do(build_ask(String::new(), "export_key"), AskStage::Asked)
}

/// Ends the export of the key.
pub fn backup_bunker_key_next(event: Event) -> (turn: Turn<AskStage>)
    ensures
        turn@ == backup_then(event@),
{
    match event {
        Event::Text { text } => finish(text),
        Event::Unreadable => finish(String::new()),
        _ => Turn::Finish(Err(TreeError::ExportFailed)),
    }
}

/// Whether a decrypted text is the canary, white space at its ends aside.
pub fn is_canary(decrypted: &str) -> (r: bool)
    ensures
        r == (trimmed(decrypted@) == CANARY@),
{
    let v = chars_of(decrypted);
    let t = trim(&v);
    let c = chars_of(CANARY);
    same_chars(&t, &c)
}

/// Begins to unlock the vault.
pub fn unlock_bunker(req: &UnlockRequest) -> (turn: Turn<UnlockStage>)
    ensures
        turn@ == unlock_first(req.key@),
{
    Turn::Do(build_ask(req.key.clone(), "unlock"), UnlockStage::Unlock)
}

/// Goes on with unlocking after an effect.
pub fn unlock_bunker_next(stage: UnlockStage, event: Event) -> (turn: Turn<UnlockStage>)
    ensures
        turn@ == unlock_then(stage, event@),
{
    match stage {
        UnlockStage::Unlock => match event {
            Event::Text { .. } | Event::Unreadable => Turn::Do(
                build_ask(String::from_str(CANARY), "encrypt"),
                UnlockStage::Encrypt,
            ),
            _ => Turn::Finish(Err(TreeError::BackendUnreachable)),
        },
        UnlockStage::Encrypt => match event {
            Event::Text { text } => Turn::Do(build_ask(text, "decrypt"), UnlockStage::Decrypt),
            Event::Unreadable => Turn::Do(
                build_ask(String::new(), "decrypt"),
                UnlockStage::Decrypt,
            ),
            _ => Turn::Finish(Err(TreeError::KeyRejectedEncrypting)),
        },
        UnlockStage::Decrypt => match event {
            Event::Text { text } => {
                if is_canary(text.as_str()) {
                    say("unlocked")
                } else {
                    Turn::Finish(Err(TreeError::InvalidMasterKey))
                }
            },
            Event::Unreadable => Turn::Finish(Err(TreeError::InvalidMasterKey)),
            _ => Turn::Finish(Err(TreeError::KeyRejectedDecrypting)),
        },
    }
}

/// Begins to ask after the custodian.
pub fn storage_health_check() -> (turn: Turn<AskStage>)
    ensures
        turn@ == health_first(),
{
    Turn::Do(build_ask(String::new(), "check"), AskStage::Asked)
}

/// Ends asking after the custodian.
pub fn storage_health_check_next(event: Event) -> (turn: Turn<AskStage>)
    ensures
        turn@ == health_then(event@),
{
    match event {
        Event::Text { text } => finish(text),
        Event::Unreadable => say("ERROR"),
        _ => say("OFFLINE"),
    }
}

/// An unlock is accepted only at the end of the round trip: after the custodian
/// has taken the key, the canary has been encrypted and decrypted again, and
/// what came back is the canary, white space at its ends aside.
pub proof fn law_unlock_needs_round_trip(stage: UnlockStage, event: EventView)
    ensures
        unlock_then(stage, event) matches TurnView::Finish(Ok(_)) ==> stage == UnlockStage::Decrypt
            && (event matches EventView::Text { text } && trimmed(text) == CANARY@),
        unlock_then(stage, event) matches TurnView::Do(effect, next) ==> (stage
            == UnlockStage::Unlock && next == UnlockStage::Encrypt && effect == ask(
            CANARY@,
            "encrypt"@,
        )) || (stage == UnlockStage::Encrypt && next == UnlockStage::Decrypt),
{
}

} // verus!
