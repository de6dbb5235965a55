//! Entries: reading a secret, with its first line hidden unless the caller asks
//! for it, and saving one, keeping the old secret where the caller sends the
//! sentinel in its place.

use crate::effect::{
    ask, build_ask, build_entry_file, build_message, committed, entry_file, finish,
    finish_with_commit, finished, Effect, EffectView, Event, EventView, TreeError, Turn, TurnView,
};
use crate::models::ActionRequest;
use crate::text::{
    chars_of, find_char, first_line, lemma_position_is, lemma_position_of, position_of,
    push_range, same_text, starts_with,
};
use vstd::prelude::*;

verus! {

/// What stands in place of the first line of a secret that is not revealed.
pub const REDACTION_MARKER: &'static str = "__TALOS_HIDDEN_SECRET__";

/// What a caller sends at the start of the content to keep the secret that the
/// entry holds.
pub const KEEP_SENTINEL: &'static str = "__KEEP__";

/// The stages of reading an entry.
#[derive(Clone, Copy, Debug, PartialEq, Eq, Structural)]
pub enum DecryptStage {
    /// The ciphertext is being read.
    Read,
    /// The custodian is decrypting.
    Asked { had_ciphertext: bool },
}

/// The stages of saving an entry.
#[derive(Clone, Copy, Debug, PartialEq, Eq, Structural)]
pub enum SaveStage {
    /// The ciphertext of the entry as it is now is being read.
    ReadCurrent,
    /// The custodian is decrypting the entry as it is now.
    DecryptCurrent,
    /// The custodian is encrypting the new content.
    Encrypt,
    /// The ciphertext is being written.
    Write,
    /// The ciphertext at the old path is being removed.
    RemoveOld,
}

/// `s` with its first line replaced by the redaction marker.
pub open spec fn redacted(s: Seq<char>) -> Seq<char> {
    REDACTION_MARKER@ + s.skip(position_of(s, '\n'))
}

/// What the caller sees of the secret `s`.
pub open spec fn shown(s: Seq<char>, unhidden: bool) -> Seq<char> {
    if unhidden {
        s
    } else {
        redacted(s)
    }
}

/// Whether the caller asked for the secret itself.
pub open spec fn wants_reveal(unhidden: Option<bool>) -> bool {
    unhidden == Some(true)
}

/// What the custodian's reply to an encrypt or decrypt request means: the
/// transformed payload, or the failure that the reply stands for. An empty reply
/// is a failure of the crypto engine.
pub open spec fn crypt_reply(t: Seq<char>) -> Result<Seq<char>, TreeError> {
    if t == "ERROR_VAULT_SEALED"@ {
        Err(TreeError::VaultSealed)
    } else if t.len() == 0 || t == "ERROR_MEMORY_WRITE"@ {
        Err(TreeError::CryptoFailure)
    } else {
        Ok(t)
    }
}

/// The content to encrypt where the caller keeps the secret of the entry whose
/// plaintext is `previous`: the sentinel that the content begins with gives way
/// to the first line of it, and nothing after it changes. Content that does not
/// begin with the sentinel stays as it is.
pub open spec fn kept(content: Seq<char>, previous: Seq<char>) -> Seq<char> {
    if KEEP_SENTINEL@.is_prefix_of(content) {
        first_line(previous) + content.skip(KEEP_SENTINEL@.len() as int)
    } else {
        content
    }
}

/// The content of a save request; empty where it brings none.
pub open spec fn content_of(content: Option<String>) -> Seq<char> {
    match content {
        Some(c) => c@,
        None => Seq::empty(),
    }
}

/// The old path of a save request that moves the entry.
pub open spec fn moved_from(path: Seq<char>, original: Option<String>) -> Option<Seq<char>> {
    match original {
        Some(o) => if o@ != path {
            Some(o@)
        } else {
            None
        },
        None => None,
    }
}

/// The first turn of reading the entry at `path`.
pub open spec fn decrypt_first(store: Seq<char>, path: Seq<char>) -> TurnView<DecryptStage> {
    TurnView::Do(EffectView::ReadText { path: entry_file(store, path) }, DecryptStage::Read)
}

/// The end of reading an entry, on the reply `t` of the custodian. A missing
/// entry reads as an empty secret; any other failure is reported.
pub open spec fn decrypt_end(t: Seq<char>, had_ciphertext: bool, unhidden: bool) -> TurnView<
    DecryptStage,
> {
    match crypt_reply(t) {
        Ok(p) => TurnView::Finish(finished(shown(p, unhidden))),
        Err(e) => if e == TreeError::CryptoFailure && !had_ciphertext {
            TurnView::Finish(finished(shown(Seq::empty(), unhidden)))
        } else {
            TurnView::Finish(Err(e))
        },
    }
}

/// The turn that follows `event` at `stage` of reading an entry.
pub open spec fn decrypt_then(unhidden: bool, stage: DecryptStage, event: EventView) -> TurnView<
    DecryptStage,
> {
    match stage {
        DecryptStage::Read => {
            let ciphertext = match event {
                EventView::Text { text } => text,
                _ => Seq::empty(),
            };
            TurnView::Do(
                ask(ciphertext, "decrypt"@),
                DecryptStage::Asked { had_ciphertext: ciphertext.len() > 0 },
            )
        },
        DecryptStage::Asked { had_ciphertext } => match event {
            EventView::Text { text } => decrypt_end(text, had_ciphertext, unhidden),
            EventView::Unreadable => TurnView::Finish(Err(TreeError::CryptoFailure)),
            _ => TurnView::Finish(Err(TreeError::BackendUnreachable)),
        },
    }
}

/// The first turn of saving `content` at `path`.
pub open spec fn save_first(store: Seq<char>, path: Seq<char>, content: Seq<char>) -> TurnView<
    SaveStage,
> {
    if KEEP_SENTINEL@.is_prefix_of(content) {
        TurnView::Do(EffectView::ReadText { path: entry_file(store, path) }, SaveStage::ReadCurrent)
    } else {
        TurnView::Do(ask(content, "encrypt"@), SaveStage::Encrypt)
    }
}

/// The commit message of a save that did not move the entry.
pub open spec fn update_message(path: Seq<char>) -> Seq<char> {
    "Update secret: "@ + path
}

/// The commit message of a save that moved the entry.
pub open spec fn move_message(from: Seq<char>, path: Seq<char>) -> Seq<char> {
    "Move secret from "@ + from + " to "@ + path
}

/// The turn that follows `event` at `stage` of saving `content` at `path`, where
/// `from` is the old path of an entry that moves.
pub open spec fn save_then(
    store: Seq<char>,
    path: Seq<char>,
    content: Seq<char>,
    from: Option<Seq<char>>,
    stage: SaveStage,
    event: EventView,
) -> TurnView<SaveStage> {
    match stage {
        SaveStage::ReadCurrent => TurnView::Do(
            ask(
                match event {
                    EventView::Text { text } => text,
                    _ => Seq::empty(),
                },
                "decrypt"@,
            ),
            SaveStage::DecryptCurrent,
        ),
        SaveStage::DecryptCurrent => match event {
            EventView::Text { text } => match crypt_reply(text) {
                Ok(previous) => TurnView::Do(
                    ask(kept(content, previous), "encrypt"@),
                    SaveStage::Encrypt,
                ),
                Err(e) => TurnView::Finish(Err(e)),
            },
            EventView::Unreadable => TurnView::Finish(Err(TreeError::CryptoFailure)),
            _ => TurnView::Finish(Err(TreeError::BackendUnreachable)),
        },
        SaveStage::Encrypt => match event {
            EventView::Text { text } => match crypt_reply(text) {
                Ok(armored) => TurnView::Do(
                    EffectView::WriteEntry { path: entry_file(store, path), content: armored },
                    SaveStage::Write,
                ),
                Err(e) => TurnView::Finish(Err(e)),
            },
            EventView::Unreadable => TurnView::Finish(Err(TreeError::CryptoFailure)),
            _ => TurnView::Finish(Err(TreeError::BackendUnreachable)),
        },
        SaveStage::Write => match event {
            EventView::Done => match from {
                Some(o) => TurnView::Do(
                    EffectView::RemoveFile { path: entry_file(store, o) },
                    SaveStage::RemoveOld,
                ),
                None => TurnView::Finish(committed("OK"@, update_message(path))),
            },
            EventView::NoDirectory => TurnView::Finish(Err(TreeError::CreateDirectory)),
            _ => TurnView::Finish(Err(TreeError::WriteFile)),
        },
        SaveStage::RemoveOld => match (event, from) {
            (EventView::Done, Some(o)) => TurnView::Finish(
                committed("OK"@, move_message(o, path)),
            ),
            _ => TurnView::Finish(committed("OK"@, update_message(path))),
        },
    }
}

/// Replaces the first line of `s` by the redaction marker.
pub fn redact(s: &str) -> (r: String)
    ensures
        r@ == redacted(s@),
{
    let v = chars_of(s);
    let i = find_char(&v, '\n');
    let mut r = String::from_str(REDACTION_MARKER);
    push_range(&mut r, &v, i, v.len());
    r
}

/// The text before the first line feed of `s`.
pub fn first_line_of(s: &str) -> (r: Vec<char>)
    ensures
        r@ == first_line(s@),
{
    let v = chars_of(s);
    let i = find_char(&v, '\n');
    let mut r: Vec<char> = Vec::new();
    let mut k: usize = 0;
    while k < i
        invariant
            k <= i <= v.len(),
            r@ == v@.take(k as int),
        decreases i - k,
    {
        r.push(v[k]);
        k += 1;
    }
    r
}

/// Puts the first line of `previous` in place of the sentinel that `content`
/// begins with.
pub fn keep_secret(content: &str, previous: &str) -> (r: String)
    ensures
        r@ == kept(content@, previous@),
{
    if !starts_with(content, KEEP_SENTINEL) {
        return String::from_str(content);
    }
    let c = chars_of(content);
    let sentinel = chars_of(KEEP_SENTINEL);
    let line = first_line_of(previous);
    let mut r = String::new();
    push_range(&mut r, &line, 0, line.len());
    push_range(&mut r, &c, sentinel.len(), c.len());
    assert(line@.subrange(0, line@.len() as int) == line@);
    assert(c@.subrange(sentinel@.len() as int, c@.len() as int) == c@.skip(
        sentinel@.len() as int,
    ));
    r
}

/// Reads the custodian's reply to an encrypt or decrypt request.
pub fn read_crypt_reply(t: String) -> (r: Result<String, TreeError>)
    ensures
        match r {
            Ok(p) => crypt_reply(t@) == Ok::<Seq<char>, TreeError>(p@),
            Err(e) => crypt_reply(t@) == Err::<Seq<char>, TreeError>(e),
        },
{
    if same_text(t.as_str(), "ERROR_VAULT_SEALED") {
        Err(TreeError::VaultSealed)
    } else if t.as_str().is_empty() || same_text(t.as_str(), "ERROR_MEMORY_WRITE") {
        Err(TreeError::CryptoFailure)
    } else {
        Ok(t)
    }
}

fn show(p: String, unhidden: bool) -> (r: String)
    ensures
        r@ == shown(p@, unhidden),
{
    if unhidden {
        p
    } else {
        redact(p.as_str())
    }
}

fn end_decrypt(t: String, had_ciphertext: bool, unhidden: bool) -> (turn: Turn<DecryptStage>)
    ensures
        turn@ == decrypt_end(t@, had_ciphertext, unhidden),
{
    match read_crypt_reply(t) {
        Ok(p) => finish(show(p, unhidden)),
        Err(e) => {
            if e == TreeError::CryptoFailure && !had_ciphertext {
                finish(show(String::new(), unhidden))
            } else {
                Turn::Finish(Err(e))
            }
        },
    }
}

/// Begins to read the entry that the request names.
pub fn decrypt_secret(store: &str, req: &ActionRequest) -> (turn: Turn<DecryptStage>)
    ensures
        turn@ == decrypt_first(store@, req.path@),
{
    Turn::Do(
        Effect::ReadText { path: build_entry_file(store, req.path.as_str()) },
        DecryptStage::Read,
    )
}

/// Goes on with reading an entry after an effect.
pub fn decrypt_secret_next(req: &ActionRequest, stage: DecryptStage, event: Event) -> (turn: Turn<
    DecryptStage,
>)
    ensures
        turn@ == decrypt_then(wants_reveal(req.reveal), stage, event@),
{
    let unhidden = match req.reveal {
        Some(r) => r,
        None => false,
    };
    match stage {
        DecryptStage::Read => {
            let ciphertext = match event {
                Event::Text { text } => text,
                _ => String::new(),
            };
            let had_ciphertext = !ciphertext.as_str().is_empty();
            Turn::Do(build_ask(ciphertext, "decrypt"), DecryptStage::Asked { had_ciphertext })
        },
        DecryptStage::Asked { had_ciphertext } => match event {
            Event::Text { text } => end_decrypt(text, had_ciphertext, unhidden),
            Event::Unreadable => Turn::Finish(Err(TreeError::CryptoFailure)),
            _ => Turn::Finish(Err(TreeError::BackendUnreachable)),
        },
    }
}

fn content_text(req: &ActionRequest) -> (c: String)
    ensures
        c@ == content_of(req.content),
{
    match &req.content {
        Some(c) => c.clone(),
        None => String::new(),
    }
}

fn old_path(req: &ActionRequest) -> (o: Option<String>)
    ensures
        match o {
            Some(p) => moved_from(req.path@, req.original_path) == Some(p@),
            None => moved_from(req.path@, req.original_path) is None,
        },
{
    match &req.original_path {
        Some(o) => {
            if same_text(o.as_str(), req.path.as_str()) {
                None
            } else {
                Some(o.clone())
            }
        },
        None => None,
    }
}

fn update_commit(path: &str) -> (turn: Turn<SaveStage>)
    ensures
        turn@ == TurnView::<SaveStage>::Finish(committed("OK"@, update_message(path@))),
{
    finish_with_commit("OK", build_message("Update secret: ", path))
}

/// Begins to save the content of the request at its path.
pub fn encrypt_and_save(store: &str, req: &ActionRequest) -> (turn: Turn<SaveStage>)
    ensures
        turn@ == save_first(store@, req.path@, content_of(req.content)),
{
    let content = content_text(req);
    if starts_with(content.as_str(), KEEP_SENTINEL) {
        Turn::Do(
            Effect::ReadText { path: build_entry_file(store, req.path.as_str()) },
            SaveStage::ReadCurrent,
        )
    } else {
        Turn::Do(build_ask(content, "encrypt"), SaveStage::Encrypt)
    }
}

/// Goes on with saving an entry after an effect.
pub fn encrypt_and_save_next(store: &str, req: &ActionRequest, stage: SaveStage, event: Event) -> (turn:
    Turn<SaveStage>)
    ensures
        turn@ == save_then(
            store@,
            req.path@,
            content_of(req.content),
            moved_from(req.path@, req.original_path),
            stage,
            event@,
        ),
{
    match stage {
        SaveStage::ReadCurrent => {
            let ciphertext = match event {
                Event::Text { text } => text,
                _ => String::new(),
            };
            Turn::Do(build_ask(ciphertext, "decrypt"), SaveStage::DecryptCurrent)
        },
        SaveStage::DecryptCurrent => match event {
            Event::Text { text } => match read_crypt_reply(text) {
                Ok(previous) => {
                    let content = content_text(req);
                    let payload = keep_secret(content.as_str(), previous.as_str());
                    Turn::Do(build_ask(payload, "encrypt"), SaveStage::Encrypt)
                },
                Err(e) => Turn::Finish(Err(e)),
            },
            Event::Unreadable => Turn::Finish(Err(TreeError::CryptoFailure)),
            _ => Turn::Finish(Err(TreeError::BackendUnreachable)),
        },
        SaveStage::Encrypt => match event {
            Event::Text { text } => match read_crypt_reply(text) {
                Ok(armored) => Turn::Do(
                    Effect::WriteEntry {
                        path: build_entry_file(store, req.path.as_str()),
                        content: armored,
                    },
                    SaveStage::Write,
                ),
                Err(e) => Turn::Finish(Err(e)),
            },
            Event::Unreadable => Turn::Finish(Err(TreeError::CryptoFailure)),
            _ => Turn::Finish(Err(TreeError::BackendUnreachable)),
        },
        SaveStage::Write => match event {
            Event::Done => match old_path(req) {
                Some(o) => Turn::Do(
                    Effect::RemoveFile { path: build_entry_file(store, o.as_str()) },
                    SaveStage::RemoveOld,
                ),
                None => update_commit(req.path.as_str()),
            },
            Event::NoDirectory => Turn::Finish(Err(TreeError::CreateDirectory)),
            _ => Turn::Finish(Err(TreeError::WriteFile)),
        },
        SaveStage::RemoveOld => match (event, old_path(req)) {
            (Event::Done, Some(o)) => {
                let mut message = String::from_str("Move secret from ");
                message.append(o.as_str());
                message.append(" to ");
                message.append(req.path.as_str());
                finish_with_commit("OK", message)
            },
            _ => update_commit(req.path.as_str()),
        },
    }
}

/// Unless the caller asks for the secret itself, the first line of what is
/// returned is the redaction marker and the lines after it are those of the
/// secret; where the caller asks, the secret is returned as it is.
pub proof fn law_redaction_default(secret: Seq<char>, had_ciphertext: bool)
    requires
        crypt_reply(secret) is Ok,
    ensures
        decrypt_then(
            false,
            DecryptStage::Asked { had_ciphertext },
            EventView::Text { text: secret },
        ) == TurnView::<DecryptStage>::Finish(finished(redacted(secret))),
        first_line(redacted(secret)) == REDACTION_MARKER@,
        redacted(secret).skip(position_of(redacted(secret), '\n')) == secret.skip(
            position_of(secret, '\n'),
        ),
        decrypt_then(
            true,
            DecryptStage::Asked { had_ciphertext },
            EventView::Text { text: secret },
        ) == TurnView::<DecryptStage>::Finish(finished(secret)),
{
    reveal_strlit("__TALOS_HIDDEN_SECRET__");
    let marker = REDACTION_MARKER@;
    let rest = secret.skip(position_of(secret, '\n'));
    let r = redacted(secret);
    lemma_position_of(secret, '\n');
    assert forall|j: int| 0 <= j < marker.len() implies r[j] != '\n' by {
        assert(r[j] == marker[j]);
    }
    if marker.len() < r.len() {
        assert(r[marker.len() as int] == rest[0]);
    }
    lemma_position_is(r, '\n', marker.len() as int);
    assert(r.take(marker.len() as int) == marker);
    assert(r.skip(marker.len() as int) == rest);
}

/// A save whose content is the sentinel followed by `rest` reads the entry as
/// it is and then sends to encryption the first line of what the entry held,
/// followed by `rest` as it came, whatever `rest` holds.
pub proof fn law_keep_existing_secret(
    store: Seq<char>,
    path: Seq<char>,
    from: Option<Seq<char>>,
    rest: Seq<char>,
    previous: Seq<char>,
)
    requires
        crypt_reply(previous) is Ok,
    ensures
        save_first(store, path, KEEP_SENTINEL@ + rest) == TurnView::Do(
            EffectView::ReadText { path: entry_file(store, path) },
            SaveStage::ReadCurrent,
        ),
        save_then(
            store,
            path,
            KEEP_SENTINEL@ + rest,
            from,
            SaveStage::DecryptCurrent,
            EventView::Text { text: previous },
        ) == TurnView::Do(ask(first_line(previous) + rest, "encrypt"@), SaveStage::Encrypt),
{
    let content = KEEP_SENTINEL@ + rest;
    assert(content.subrange(0, KEEP_SENTINEL@.len() as int) == KEEP_SENTINEL@);
    assert(content.skip(KEEP_SENTINEL@.len() as int) == rest);
}

/// Content that does not begin with the sentinel is sent to encryption as it
/// came, and the entry as it is is not read.
pub proof fn law_sentinel_only_at_start(store: Seq<char>, path: Seq<char>, content: Seq<char>)
    requires
        !KEEP_SENTINEL@.is_prefix_of(content),
    ensures
        save_first(store, path, content) == TurnView::Do(
            ask(content, "encrypt"@),
            SaveStage::Encrypt,
        ),
{
}

/// Where the entry as it is cannot be decrypted, a save that keeps its secret
/// ends with the failure: nothing is sent to encryption and nothing is written.
pub proof fn law_keep_needs_the_old_secret(
    store: Seq<char>,
    path: Seq<char>,
    content: Seq<char>,
    from: Option<Seq<char>>,
    event: EventView,
)
    requires
        !(event matches EventView::Text { text } && crypt_reply(text) is Ok),
    ensures
        save_then(store, path, content, from, SaveStage::DecryptCurrent, event) matches TurnView::Finish(
            Err(_),
        ),
{
}

/// Nothing is written unless the custodian returned a ciphertext, and the old
/// file of an entry that moves is removed only after the new one is written.
pub proof fn law_save_loses_nothing(
    store: Seq<char>,
    path: Seq<char>,
    content: Seq<char>,
    from: Option<Seq<char>>,
    stage: SaveStage,
    event: EventView,
)
    ensures
        save_then(store, path, content, from, stage, event) matches TurnView::Do(
            EffectView::WriteEntry { path: file, content: armored },
            _,
        ) ==> stage == SaveStage::Encrypt && event == (EventView::Text { text: armored })
            && crypt_reply(armored) is Ok && file == entry_file(store, path),
        save_then(store, path, content, from, stage, event) matches TurnView::Do(
            EffectView::RemoveFile { path: file },
            _,
        ) ==> stage == SaveStage::Write && event == EventView::Done && from is Some && file
            == entry_file(store, from->0),
        stage == SaveStage::Encrypt && !(event matches EventView::Text { text } && crypt_reply(text) is Ok)
            ==> save_then(store, path, content, from, stage, event) matches TurnView::Finish(Err(_)),
{
}

} // verus!
