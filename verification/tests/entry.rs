use talos::effect::{Done, Effect, Event, TreeError, Turn};
use talos::entry::{
    decrypt_secret, decrypt_secret_next, encrypt_and_save, encrypt_and_save_next, first_line_of,
    keep_secret, read_crypt_reply, redact, DecryptStage, SaveStage, KEEP_SENTINEL,
    REDACTION_MARKER,
};
use talos::models::{ActionRequest, BunkerTask};

const STORE: &str = "/store";

fn request(path: &str) -> ActionRequest {
    ActionRequest { path: path.to_string(), content: None, original_path: None, reveal: None }
}

fn text(t: &str) -> Event {
    Event::Text { text: t.to_string() }
}

fn ask(payload: &str, mode: &str) -> Effect {
    Effect::AskVault {
        task: BunkerTask { payload: payload.to_string(), mode: mode.to_string() },
        passphrase: None,
    }
}

fn sealed_missing_probe() -> DecryptStage {
    DecryptStage::Asked { had_ciphertext: false }
}

fn shown(text: &str) -> Turn<DecryptStage> {
    Turn::Finish(Ok(Done { text: text.to_string(), commit: None }))
}

fn saved(message: &str) -> Turn<SaveStage> {
    Turn::Finish(Ok(Done { text: "OK".to_string(), commit: Some(message.to_string()) }))
}

#[test]
fn redaction_hides_the_first_line_by_default() {
    let asked = DecryptStage::Asked { had_ciphertext: true };
    let turn = decrypt_secret_next(&request("p"), asked, text("secret123\nnote: x"));
    assert_eq!(turn, shown("__TALOS_HIDDEN_SECRET__\nnote: x"));
    let mut hidden = request("p");
    hidden.reveal = Some(false);
    let turn = decrypt_secret_next(&hidden, asked, text("secret123\nnote: x"));
    assert_eq!(turn, shown("__TALOS_HIDDEN_SECRET__\nnote: x"));
    let mut revealed = request("p");
    revealed.reveal = Some(true);
    let turn = decrypt_secret_next(&revealed, asked, text("secret123\nnote: x"));
    assert_eq!(turn, shown("secret123\nnote: x"));
}

#[test]
fn redact_replaces_exactly_the_first_line() {
    assert_eq!(REDACTION_MARKER, "__TALOS_HIDDEN_SECRET__");
    assert_eq!(redact("secret123\nnote: x"), "__TALOS_HIDDEN_SECRET__\nnote: x");
    assert_eq!(redact("single"), "__TALOS_HIDDEN_SECRET__");
    assert_eq!(redact(""), "__TALOS_HIDDEN_SECRET__");
    assert_eq!(redact("\nrest\nmore"), "__TALOS_HIDDEN_SECRET__\nrest\nmore");
    assert_eq!(redact("a\n"), "__TALOS_HIDDEN_SECRET__\n");
}

#[test]
fn decrypt_reads_the_ciphertext_then_asks_the_custodian() {
    let turn = decrypt_secret(STORE, &request("Social/twitter"));
    assert_eq!(
        turn,
        Turn::Do(
            Effect::ReadText { path: "/store/Social/twitter.gpg".to_string() },
            DecryptStage::Read
        )
    );
    let turn = decrypt_secret_next(&request("Social/twitter"), DecryptStage::Read, text("BLOB"));
    assert_eq!(turn, Turn::Do(ask("BLOB", "decrypt"), DecryptStage::Asked { had_ciphertext: true }));
}

#[test]
fn a_missing_entry_reads_as_an_empty_secret() {
    let turn = decrypt_secret_next(&request("gone"), DecryptStage::Read, Event::Failed);
    assert_eq!(turn, Turn::Do(ask("", "decrypt"), DecryptStage::Asked { had_ciphertext: false }));
    let asked = DecryptStage::Asked { had_ciphertext: false };
    assert_eq!(decrypt_secret_next(&request("gone"), asked, text("")), shown("__TALOS_HIDDEN_SECRET__"));
    let mut revealed = request("gone");
    revealed.reveal = Some(true);
    assert_eq!(decrypt_secret_next(&revealed, asked, text("")), shown(""));
}

#[test]
fn decrypt_failures_are_reported() {
    let asked = DecryptStage::Asked { had_ciphertext: true };
    let r = request("p");
    assert_eq!(decrypt_secret_next(&r, asked, text("")), Turn::Finish(Err(TreeError::CryptoFailure)));
    assert_eq!(
        decrypt_secret_next(&r, asked, text("ERROR_VAULT_SEALED")),
        Turn::Finish(Err(TreeError::VaultSealed))
    );
    assert_eq!(
        decrypt_secret_next(&r, asked, text("ERROR_MEMORY_WRITE")),
        Turn::Finish(Err(TreeError::CryptoFailure))
    );
    assert_eq!(
        decrypt_secret_next(&r, asked, Event::Failed),
        Turn::Finish(Err(TreeError::BackendUnreachable))
    );
    assert_eq!(
        decrypt_secret_next(&r, asked, Event::Unreadable),
        Turn::Finish(Err(TreeError::CryptoFailure))
    );
    assert_eq!(
        decrypt_secret_next(&r, sealed_missing_probe(), Event::Unreadable),
        Turn::Finish(Err(TreeError::CryptoFailure))
    );
    let sealed_missing = DecryptStage::Asked { had_ciphertext: false };
    assert_eq!(
        decrypt_secret_next(&r, sealed_missing, text("ERROR_VAULT_SEALED")),
        Turn::Finish(Err(TreeError::VaultSealed))
    );
}

#[test]
fn crypt_replies_are_read() {
    assert_eq!(read_crypt_reply("armored".to_string()), Ok("armored".to_string()));
    assert_eq!(read_crypt_reply(String::new()), Err(TreeError::CryptoFailure));
    assert_eq!(read_crypt_reply("ERROR_VAULT_SEALED".to_string()), Err(TreeError::VaultSealed));
    assert_eq!(read_crypt_reply("ERROR_MEMORY_WRITE".to_string()), Err(TreeError::CryptoFailure));
}

#[test]
fn keep_existing_secret_substitutes_the_old_first_line() {
    assert_eq!(KEEP_SENTINEL, "__KEEP__");
    let mut req = request("mail");
    req.content = Some("__KEEP__\nuser:b".to_string());
    let turn = encrypt_and_save(STORE, &req);
    assert_eq!(
        turn,
        Turn::Do(Effect::ReadText { path: "/store/mail.gpg".to_string() }, SaveStage::ReadCurrent)
    );
    let turn = encrypt_and_save_next(STORE, &req, SaveStage::ReadCurrent, text("OLDBLOB"));
    assert_eq!(turn, Turn::Do(ask("OLDBLOB", "decrypt"), SaveStage::DecryptCurrent));
    let turn = encrypt_and_save_next(STORE, &req, SaveStage::DecryptCurrent, text("oldpass\nuser:a"));
    assert_eq!(turn, Turn::Do(ask("oldpass\nuser:b", "encrypt"), SaveStage::Encrypt));
}

#[test]
fn keep_secret_rewrites_the_leading_sentinel_only() {
    assert_eq!(keep_secret("__KEEP__\nuser:b", "oldpass\nuser:a"), "oldpass\nuser:b");
    assert_eq!(keep_secret("__KEEP__ and __KEEP__", "x"), "x and __KEEP__");
    assert_eq!(keep_secret("__KEEP__", "secret\nmore"), "secret");
    assert_eq!(keep_secret("nothing here", "x\ny"), "nothing here");
    assert_eq!(keep_secret("x\n__KEEP__", "old"), "x\n__KEEP__");
    assert_eq!(keep_secret("__KEEP__\nrest", ""), "\nrest");
    assert_eq!(first_line_of("oldpass\nuser:a"), vec!['o', 'l', 'd', 'p', 'a', 's', 's']);
    assert_eq!(first_line_of(""), Vec::<char>::new());
}

#[test]
fn a_sentinel_in_a_later_line_stays_as_it_came() {
    let mut req = request("mail");
    req.content = Some("__KEEP__\nnote: __KEEP__".to_string());
    let turn = encrypt_and_save(STORE, &req);
    assert_eq!(
        turn,
        Turn::Do(Effect::ReadText { path: "/store/mail.gpg".to_string() }, SaveStage::ReadCurrent)
    );
    let turn = encrypt_and_save_next(STORE, &req, SaveStage::DecryptCurrent, text("oldpass\nuser:a"));
    assert_eq!(turn, Turn::Do(ask("oldpass\nnote: __KEEP__", "encrypt"), SaveStage::Encrypt));
}

#[test]
fn a_sentinel_that_is_not_at_the_start_is_content() {
    let mut req = request("mail");
    req.content = Some("x\n__KEEP__".to_string());
    let turn = encrypt_and_save(STORE, &req);
    assert_eq!(turn, Turn::Do(ask("x\n__KEEP__", "encrypt"), SaveStage::Encrypt));
}

#[test]
fn keep_fails_where_the_old_secret_cannot_be_read() {
    let mut req = request("mail");
    req.content = Some("__KEEP__\nuser:b".to_string());
    let turn = encrypt_and_save_next(STORE, &req, SaveStage::ReadCurrent, Event::Failed);
    assert_eq!(turn, Turn::Do(ask("", "decrypt"), SaveStage::DecryptCurrent));
    let stage = SaveStage::DecryptCurrent;
    assert_eq!(
        encrypt_and_save_next(STORE, &req, stage, Event::Failed),
        Turn::Finish(Err(TreeError::BackendUnreachable))
    );
    assert_eq!(
        encrypt_and_save_next(STORE, &req, stage, Event::Unreadable),
        Turn::Finish(Err(TreeError::CryptoFailure))
    );
    assert_eq!(
        encrypt_and_save_next(STORE, &req, stage, text("")),
        Turn::Finish(Err(TreeError::CryptoFailure))
    );
    assert_eq!(
        encrypt_and_save_next(STORE, &req, stage, text("ERROR_VAULT_SEALED")),
        Turn::Finish(Err(TreeError::VaultSealed))
    );
    assert_eq!(
        encrypt_and_save_next(STORE, &req, stage, text("ERROR_MEMORY_WRITE")),
        Turn::Finish(Err(TreeError::CryptoFailure))
    );
}

#[test]
fn save_encrypts_then_writes_then_commits() {
    let mut req = request("Social/twitter");
    req.content = Some("MyTwitterPassword\nUser: myuser".to_string());
    let turn = encrypt_and_save(STORE, &req);
    assert_eq!(turn, Turn::Do(ask("MyTwitterPassword\nUser: myuser", "encrypt"), SaveStage::Encrypt));
    let turn = encrypt_and_save_next(STORE, &req, SaveStage::Encrypt, text("ARMORED"));
    assert_eq!(
        turn,
        Turn::Do(
            Effect::WriteEntry {
                path: "/store/Social/twitter.gpg".to_string(),
                content: "ARMORED".to_string()
            },
            SaveStage::Write
        )
    );
    let turn = encrypt_and_save_next(STORE, &req, SaveStage::Write, Event::Done);
    assert_eq!(turn, saved("Update secret: Social/twitter"));
}

#[test]
fn save_without_content_encrypts_nothing() {
    let turn = encrypt_and_save(STORE, &request("p"));
    assert_eq!(turn, Turn::Do(ask("", "encrypt"), SaveStage::Encrypt));
}

#[test]
fn failed_encryption_writes_no_file() {
    let mut req = request("p");
    req.content = Some("x".to_string());
    assert_eq!(
        encrypt_and_save_next(STORE, &req, SaveStage::Encrypt, text("")),
        Turn::Finish(Err(TreeError::CryptoFailure))
    );
    assert_eq!(
        encrypt_and_save_next(STORE, &req, SaveStage::Encrypt, text("ERROR_VAULT_SEALED")),
        Turn::Finish(Err(TreeError::VaultSealed))
    );
    assert_eq!(
        encrypt_and_save_next(STORE, &req, SaveStage::Encrypt, Event::Unreadable),
        Turn::Finish(Err(TreeError::CryptoFailure))
    );
    assert_eq!(
        encrypt_and_save_next(STORE, &req, SaveStage::Encrypt, Event::Failed),
        Turn::Finish(Err(TreeError::BackendUnreachable))
    );
}

#[test]
fn write_failures_abort_the_save() {
    let mut req = request("p");
    req.content = Some("x".to_string());
    assert_eq!(
        encrypt_and_save_next(STORE, &req, SaveStage::Write, Event::NoDirectory),
        Turn::Finish(Err(TreeError::CreateDirectory))
    );
    assert_eq!(
        encrypt_and_save_next(STORE, &req, SaveStage::Write, Event::Failed),
        Turn::Finish(Err(TreeError::WriteFile))
    );
}

#[test]
fn a_rename_removes_the_old_file_after_the_new_one_is_written() {
    let mut req = request("new/name");
    req.content = Some("x".to_string());
    req.original_path = Some("old/name".to_string());
    let turn = encrypt_and_save_next(STORE, &req, SaveStage::Write, Event::Done);
    assert_eq!(
        turn,
        Turn::Do(Effect::RemoveFile { path: "/store/old/name.gpg".to_string() }, SaveStage::RemoveOld)
    );
    assert_eq!(
        encrypt_and_save_next(STORE, &req, SaveStage::RemoveOld, Event::Done),
        saved("Move secret from old/name to new/name")
    );
    assert_eq!(
        encrypt_and_save_next(STORE, &req, SaveStage::RemoveOld, Event::Failed),
        saved("Update secret: new/name")
    );
}

#[test]
fn the_same_original_path_is_no_rename() {
    let mut req = request("same");
    req.content = Some("x".to_string());
    req.original_path = Some("same".to_string());
    assert_eq!(
        encrypt_and_save_next(STORE, &req, SaveStage::Write, Event::Done),
        saved("Update secret: same")
    );
}
