//! The seal state over whole runs: the vault together with the keyring that it
//! relies on, and what every sequence of requests leaves.
//!
//! The keyring is outside this library. It is taken to answer a probe by whether
//! the identity exists, and to hold the identity once the engine has generated or
//! imported one. Nothing removes an identity.

use crate::vault::{begin, resume, seal_state, AnswerView, Mode, Pending, SealState, StepView, VaultError};
use vstd::prelude::*;

verus! {

/// The vault and the keyring at one moment.
pub struct World {
    /// Whether the keyring holds the identity.
    pub identity: bool,
    /// The passphrase that the vault holds.
    pub held: Option<Seq<char>>,
}

/// What the engine does on the runs of one request.
pub struct Engine {
    /// Whether the carrier can be written.
    pub carrier_written: bool,
    /// Whether a run that is no probe ends with status zero.
    pub success: bool,
    /// What such a run writes to its standard output.
    pub stdout: Seq<char>,
}

/// An event in the life of the vault.
pub enum Event {
    Initialize { passphrase: Seq<char>, engine: Engine },
    Import { key_material: Seq<char>, passphrase: Seq<char>, engine: Engine },
    Unlock { passphrase: Seq<char> },
    Restart,
}

/// Whether a pending run asks the keyring for the identity.
pub open spec fn is_probe(pending: Pending) -> bool {
    pending == Pending::ProbeForCheck || pending == Pending::ProbeForInitialize || pending
        == Pending::ProbeForImport
}

/// Whether the keyring holds the identity after a run.
pub open spec fn identity_after(identity: bool, pending: Pending, engine: Engine) -> bool {
    identity || ((pending == Pending::Generate || pending == Pending::Import)
        && engine.carrier_written && engine.success)
}

/// One run of the engine in the world, and the step that the custodian takes on
/// its outcome.
pub open spec fn run(
    w: World,
    pending: Pending,
    payload: Seq<char>,
    passphrase: Seq<char>,
    name: Seq<char>,
    engine: Engine,
) -> (World, StepView) {
    let success = if is_probe(pending) {
        w.identity
    } else {
        engine.success
    };
    let (held, step) = resume(
        w.held,
        pending,
        payload,
        passphrase,
        name,
        engine.carrier_written,
        success,
        engine.stdout,
    );
    (World { identity: identity_after(w.identity, pending, engine), held }, step)
}

/// A request served to its answer: the world after it, and the answer. No
/// request needs more than two runs of the engine.
pub open spec fn serve(
    w: World,
    mode: Mode,
    payload: Seq<char>,
    passphrase: Seq<char>,
    name: Seq<char>,
    engine: Engine,
) -> (World, AnswerView) {
    let (held, first) = begin(w.held, mode, payload, name);
    let w0 = World { identity: w.identity, held };
    match first {
        StepView::Reply(a) => (w0, a),
        StepView::Call(_, pending) => {
            let (w1, second) = run(w0, pending, payload, passphrase, name, engine);
            match second {
                StepView::Reply(a) => (w1, a),
                StepView::Call(_, then) => {
                    let (w2, third) = run(w1, then, payload, passphrase, name, engine);
                    match third {
                        StepView::Reply(a) => (w2, a),
                        StepView::Call(_, _) => (w2, AnswerView::Refused(VaultError::CryptoFailure)),
                    }
                },
            }
        },
    }
}

/// An engine on which every run works.
pub open spec fn working() -> Engine {
    Engine { carrier_written: true, success: true, stdout: Seq::empty() }
}

/// The world after an event.
pub open spec fn after(w: World, e: Event, name: Seq<char>) -> World {
    match e {
        Event::Initialize { passphrase, engine } => serve(
            w,
            Mode::Initialize,
            passphrase,
            Seq::empty(),
            name,
            engine,
        ).0,
        Event::Import { key_material, passphrase, engine } => serve(
            w,
            Mode::Import,
            key_material,
            passphrase,
            name,
            engine,
        ).0,
        Event::Unlock { passphrase } => serve(
            w,
            Mode::Unlock,
            passphrase,
            Seq::empty(),
            name,
            working(),
        ).0,
        Event::Restart => World { identity: w.identity, held: None },
    }
}

/// The world after a sequence of events.
pub open spec fn after_all(w: World, events: Seq<Event>, name: Seq<char>) -> World
    decreases events.len(),
{
    if events.len() == 0 {
        w
    } else {
        after(after_all(w, events.drop_last(), name), events.last(), name)
    }
}

/// What a check answers in a world.
pub open spec fn checked(w: World, name: Seq<char>) -> AnswerView {
    serve(w, Mode::Check, Seq::empty(), Seq::empty(), name, working()).1
}

/// Every request is answered after at most two runs of the engine.
pub proof fn law_two_runs_suffice(
    w: World,
    mode: Mode,
    payload: Seq<char>,
    passphrase: Seq<char>,
    name: Seq<char>,
    engine: Engine,
)
    ensures
        ({
            let (held, first) = begin(w.held, mode, payload, name);
            let w0 = World { identity: w.identity, held };
            first matches StepView::Call(_, pending) ==> {
                let (w1, second) = run(w0, pending, payload, passphrase, name, engine);
                second matches StepView::Call(_, then) ==> run(
                    w1,
                    then,
                    payload,
                    passphrase,
                    name,
                    engine,
                ).1 is Reply
            }
        }),
{
}

/// After every sequence of initialize, import, unlock and restart, a check
/// reports `Uninitialized` exactly where no identity exists, `Sealed` exactly
/// where an identity exists and no passphrase is held, and `Unsealed` otherwise;
/// and the check itself changes nothing.
pub proof fn law_seal_state(w: World, events: Seq<Event>, name: Seq<char>)
    ensures
        ({
            let now = after_all(w, events, name);
            &&& checked(now, name) == AnswerView::Seal(seal_state(now.identity, now.held is Some))
            &&& (checked(now, name) == AnswerView::Seal(SealState::Uninitialized)) <==> !now.identity
            &&& (checked(now, name) == AnswerView::Seal(SealState::Sealed)) <==> (now.identity
                && now.held is None)
            &&& (checked(now, name) == AnswerView::Seal(SealState::Unsealed)) <==> (now.identity
                && now.held is Some)
            &&& serve(now, Mode::Check, Seq::empty(), Seq::empty(), name, working()).0 == now
        }),
{
}

/// No event removes the identity: a vault that was initialized once never
/// reports `Uninitialized` again.
pub proof fn law_identity_is_kept(w: World, events: Seq<Event>, name: Seq<char>)
    requires
        w.identity,
    ensures
        after_all(w, events, name).identity,
        checked(after_all(w, events, name), name) != AnswerView::Seal(SealState::Uninitialized),
    decreases events.len(),
{
    if events.len() > 0 {
        law_identity_is_kept(w, events.drop_last(), name);
    }
}

/// Initializing an uninitialized vault, where the engine generates the identity,
/// leaves it unsealed under the given passphrase; a second initialize is refused
/// with `AlreadyInitialized` and changes nothing.
pub proof fn law_initialize_once(
    w: World,
    passphrase: Seq<char>,
    again: Seq<char>,
    name: Seq<char>,
    engine: Engine,
    second: Engine,
)
    requires
        !w.identity,
        engine.carrier_written,
        engine.success,
    ensures
        ({
            let (w1, a1) = serve(w, Mode::Initialize, passphrase, Seq::empty(), name, engine);
            let (w2, a2) = serve(w1, Mode::Initialize, again, Seq::empty(), name, second);
            &&& a1 == AnswerView::Initialized
            &&& w1.identity
            &&& w1.held == Some(passphrase)
            &&& checked(w1, name) == AnswerView::Seal(SealState::Unsealed)
            &&& a2 == AnswerView::Refused(VaultError::AlreadyInitialized)
            &&& w2 == w1
        }),
{
}

/// Initialize and import are refused wherever an identity exists, and then
/// change neither the keyring nor the passphrase.
pub proof fn law_no_overwrite(
    w: World,
    mode: Mode,
    payload: Seq<char>,
    passphrase: Seq<char>,
    name: Seq<char>,
    engine: Engine,
)
    requires
        w.identity,
        mode == Mode::Initialize || mode == Mode::Import,
    ensures
        serve(w, mode, payload, passphrase, name, engine) == (
            w,
            AnswerView::Refused(VaultError::AlreadyInitialized),
        ),
{
}

/// Where the engine fails to generate or import, neither an identity nor a
/// passphrase is retained.
pub proof fn law_failure_retains_nothing(
    w: World,
    mode: Mode,
    payload: Seq<char>,
    passphrase: Seq<char>,
    name: Seq<char>,
    engine: Engine,
)
    requires
        mode == Mode::Initialize || mode == Mode::Import,
        !engine.carrier_written || !engine.success,
    ensures
        serve(w, mode, payload, passphrase, name, engine).0 == w,
        serve(w, mode, payload, passphrase, name, engine).1 is Refused,
{
}

/// A restart clears the passphrase: an unsealed vault is sealed after it.
pub proof fn law_restart_seals(w: World, name: Seq<char>)
    ensures
        after(w, Event::Restart, name).held is None,
        w.identity ==> checked(after(w, Event::Restart, name), name) == AnswerView::Seal(
            SealState::Sealed,
        ),
{
}

/// Unlock takes any passphrase: a sealed vault is unsealed after it, under that
/// passphrase.
pub proof fn law_unlock_unseals(w: World, passphrase: Seq<char>, name: Seq<char>)
    ensures
        after(w, Event::Unlock { passphrase }, name).held == Some(passphrase),
        after(w, Event::Unlock { passphrase }, name).identity == w.identity,
        w.identity ==> checked(after(w, Event::Unlock { passphrase }, name), name)
            == AnswerView::Seal(SealState::Unsealed),
{
}

/// Encryption and decryption are refused with `VaultSealed` exactly where no
/// passphrase is held, and never change the world.
pub proof fn law_crypt_needs_passphrase(
    w: World,
    mode: Mode,
    payload: Seq<char>,
    name: Seq<char>,
    engine: Engine,
)
    requires
        mode == Mode::Encrypt || mode == Mode::Decrypt,
    ensures
        serve(w, mode, payload, Seq::empty(), name, engine).0 == w,
        (serve(w, mode, payload, Seq::empty(), name, engine).1 == AnswerView::Refused(
            VaultError::VaultSealed,
        )) <==> w.held is None,
        w.held is Some ==> serve(w, mode, payload, Seq::empty(), name, engine).1 == (if engine.carrier_written
            && engine.success && engine.stdout.len() > 0 {
            AnswerView::Payload(engine.stdout)
        } else if !engine.carrier_written {
            AnswerView::Refused(VaultError::PassphraseCarrier)
        } else {
            AnswerView::Refused(VaultError::CryptoFailure)
        }),
{
}

/// A passphrase is held only where an identity exists, as long as no passphrase
/// is offered to a vault that was never initialized.
pub proof fn law_passphrase_needs_identity(w: World, e: Event, name: Seq<char>)
    requires
        w.held is Some ==> w.identity,
        e is Unlock ==> w.identity,
    ensures
        after(w, e, name).held is Some ==> after(w, e, name).identity,
{
}

} // verus!
