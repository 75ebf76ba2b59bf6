use raptor::command::{
    begin, show_code, Command, Context, Failure, IndexFault, IndexLoad, IndexSave, Step,
    StoreRead, StoreWrite, INDEX_FILE, SERVICE,
};
use raptor::error::Error;
use raptor::index::IndexUpdate;
use raptor::totp::{generate_at, resolve};
use std::collections::HashMap;
use std::time::{SystemTime, UNIX_EPOCH};

const BOB_SECRET: &str = "JBSWY3DPEHPK3PXPJBSWY3DPEHPK3PXP";

/// A credential store and an index file held in memory.
struct World {
    store: HashMap<String, String>,
    index: Option<String>,
    store_writes: usize,
    index_writes: usize,
}

impl World {
    fn new() -> World {
        World { store: HashMap::new(), index: None, store_writes: 0, index_writes: 0 }
    }

    fn run(&mut self, command: Command) -> Result<Vec<String>, Failure> {
        let mut step = begin(command);
        loop {
            step = match step {
                Step::Done(lines) => return Ok(lines),
                Step::Failed(failure) => return Err(failure),
                Step::WriteStore(write) => {
                    self.store_writes += 1;
                    match &write {
                        StoreWrite::Put { account, secret } => {
                            self.store.insert(account.clone(), secret.clone());
                        }
                        StoreWrite::Delete { account } => {
                            self.store.remove(account);
                        }
                    }
                    write.resume(Ok(()))
                }
                Step::ReadStore(read) => {
                    let found = self.store.get(&read.account).cloned();
                    read.resume(found.ok_or("No matching entry found".to_string()))
                }
                Step::LoadIndex(load) => load.resume(Ok(self.index.clone())),
                Step::SaveIndex(save) => {
                    self.index_writes += 1;
                    match &save.update {
                        IndexUpdate::Unchanged => {}
                        IndexUpdate::Append(text) => {
                            let mut content = self.index.take().unwrap_or_default();
                            content.push_str(text);
                            self.index = Some(content);
                        }
                        IndexUpdate::Rewrite(text) => self.index = Some(text.clone()),
                    }
                    save.resume(Ok(()))
                }
            };
        }
    }
}

fn add(account: &str, secret: &str) -> Command {
    Command::Add { account: account.to_string(), secret: secret.to_string() }
}

fn remove(account: &str) -> Command {
    Command::Remove { account: account.to_string() }
}

fn code(account: &str, digits: usize, period: u64, algorithm: &str) -> Command {
    Command::Code {
        account: account.to_string(),
        digits,
        period,
        algorithm: algorithm.to_string(),
    }
}

fn failure(context: Context, error: Error) -> Failure {
    Failure { context, error }
}

#[test]
fn names_of_service_and_index_file() {
    assert_eq!(SERVICE, "raptor");
    assert_eq!(INDEX_FILE, "accounts");
}

#[test]
fn add_with_short_secret_fails_and_writes_nothing() {
    let mut world = World::new();
    let outcome = world.run(add("alice", "JBSWY3DPEHPK3PXP"));
    assert_eq!(
        outcome,
        Err(failure(Context::ValidatingSecret, Error::SecretTooShort { bytes: 10, bits: 80 }))
    );
    assert!(world.store.is_empty());
    assert_eq!(world.index, None);
    assert_eq!((world.store_writes, world.index_writes), (0, 0));
}

#[test]
fn add_with_short_secret_ends_at_the_first_step() {
    assert_eq!(
        begin(add("alice", "JBSWY3DPEHPK3PXP")),
        Step::Failed(failure(
            Context::ValidatingSecret,
            Error::SecretTooShort { bytes: 10, bits: 80 }
        ))
    );
}

#[test]
fn add_with_invalid_secret_fails_and_writes_nothing() {
    let mut world = World::new();
    let outcome = world.run(add("alice", "not a secret"));
    assert_eq!(outcome, Err(failure(Context::ValidatingSecret, Error::InvalidEncoding)));
    assert!(world.store.is_empty());
    assert_eq!(world.index, None);
}

#[test]
fn add_stores_the_secret_and_lists_the_account() {
    let mut world = World::new();
    let outcome = world.run(add("bob", BOB_SECRET));
    assert_eq!(outcome, Ok(vec!["Stored secret for \"bob\"".to_string()]));
    assert_eq!(world.store.get("bob").map(String::as_str), Some(BOB_SECRET));
    assert_eq!(world.index.as_deref(), Some("bob\n"));
}

#[test]
fn add_asks_for_the_store_before_the_index() {
    let first = begin(add("bob", BOB_SECRET));
    let write = StoreWrite::Put { account: "bob".to_string(), secret: BOB_SECRET.to_string() };
    assert_eq!(first, Step::WriteStore(write.clone()));
    let second = write.resume(Ok(()));
    let load = IndexLoad::ForAdd { account: "bob".to_string() };
    assert_eq!(second, Step::LoadIndex(load.clone()));
    let third = load.resume(Ok(Some("alice\n".to_string())));
    let save = IndexSave {
        update: IndexUpdate::Append("bob\n".to_string()),
        confirmation: "Stored secret for \"bob\"".to_string(),
    };
    assert_eq!(third, Step::SaveIndex(save.clone()));
    assert_eq!(save.resume(Ok(())), Step::Done(vec!["Stored secret for \"bob\"".to_string()]));
}

#[test]
fn add_again_replaces_the_secret_and_keeps_one_line() {
    let mut world = World::new();
    world.run(add("bob", BOB_SECRET)).unwrap();
    let other = "KRSXG5CTMVRXEZLUKN2XAZLSKNSWG4TFOQ";
    assert_eq!(
        world.run(add("bob", other)),
        Ok(vec!["Stored secret for \"bob\"".to_string()])
    );
    assert_eq!(world.store.get("bob").map(String::as_str), Some(other));
    assert_eq!(world.index.as_deref(), Some("bob\n"));
    assert_eq!(world.index_writes, 1);
}

#[test]
fn list_shows_added_accounts_and_not_removed_ones() {
    let mut world = World::new();
    assert_eq!(world.run(Command::List), Ok(vec!["(no accounts)".to_string()]));
    world.run(add("bob", BOB_SECRET)).unwrap();
    world.run(add("carol", BOB_SECRET)).unwrap();
    assert_eq!(world.run(Command::List), Ok(vec!["bob".to_string(), "carol".to_string()]));
    world.run(remove("carol")).unwrap();
    assert_eq!(world.run(Command::List), Ok(vec!["bob".to_string()]));
}

#[test]
fn remove_deletes_the_secret_and_the_line() {
    let mut world = World::new();
    world.run(add("alice", BOB_SECRET)).unwrap();
    world.run(add("bob", BOB_SECRET)).unwrap();
    assert_eq!(world.run(remove("bob")), Ok(vec!["Removed secret for \"bob\"".to_string()]));
    assert!(!world.store.contains_key("bob"));
    assert!(world.store.contains_key("alice"));
    assert_eq!(world.index.as_deref(), Some("alice\n"));
}

#[test]
fn remove_a_second_time_leaves_the_index_as_it_is() {
    let mut world = World::new();
    world.run(add("alice", BOB_SECRET)).unwrap();
    world.run(add("bob", BOB_SECRET)).unwrap();
    world.run(remove("bob")).unwrap();
    let after_first = world.index.clone();
    assert_eq!(world.run(remove("bob")), Ok(vec!["Removed secret for \"bob\"".to_string()]));
    assert_eq!(world.index, after_first);
}

#[test]
fn remove_without_index_file_writes_none() {
    let mut world = World::new();
    assert_eq!(world.run(remove("bob")), Ok(vec!["Removed secret for \"bob\"".to_string()]));
    assert_eq!(world.index, None);
    assert_eq!(world.index_writes, 0);
}

#[test]
fn remove_of_the_only_account_leaves_an_empty_line() {
    let mut world = World::new();
    world.run(add("bob", BOB_SECRET)).unwrap();
    world.run(remove("bob")).unwrap();
    assert_eq!(world.index.as_deref(), Some("\n"));
    assert_eq!(world.run(Command::List), Ok(vec!["".to_string()]));
}

#[test]
fn store_failure_ends_add_before_the_index() {
    let write = StoreWrite::Put { account: "bob".to_string(), secret: BOB_SECRET.to_string() };
    assert_eq!(
        write.resume(Err("locked".to_string())),
        Step::Failed(failure(
            Context::WritingSecret,
            Error::CredentialStoreError("locked".to_string())
        ))
    );
}

#[test]
fn store_failure_ends_remove_before_the_index() {
    let step = begin(remove("bob"));
    let write = StoreWrite::Delete { account: "bob".to_string() };
    assert_eq!(step, Step::WriteStore(write.clone()));
    assert_eq!(
        write.resume(Err("No matching entry found".to_string())),
        Step::Failed(failure(
            Context::DeletingSecret,
            Error::CredentialStoreError("No matching entry found".to_string())
        ))
    );
}

#[test]
fn index_read_failures() {
    let io = IndexFault::Io("permission denied".to_string());
    for load in [
        IndexLoad::ForAdd { account: "bob".to_string() },
        IndexLoad::ForRemove { account: "bob".to_string() },
    ] {
        assert_eq!(
            load.clone().resume(Err(io.clone())),
            Step::Failed(failure(
                Context::UpdatingIndex,
                Error::IndexIoError("permission denied".to_string())
            ))
        );
        assert_eq!(
            load.resume(Err(IndexFault::NoConfigDir)),
            Step::Failed(failure(Context::UpdatingIndex, Error::ConfigDirUnavailable))
        );
    }
    assert_eq!(
        IndexLoad::ForList.resume(Err(io)),
        Step::Failed(failure(
            Context::ListingAccounts,
            Error::IndexIoError("permission denied".to_string())
        ))
    );
    assert_eq!(
        IndexLoad::ForList.resume(Err(IndexFault::NoConfigDir)),
        Step::Failed(failure(Context::ListingAccounts, Error::ConfigDirUnavailable))
    );
}

#[test]
fn index_write_failure() {
    let save = IndexSave {
        update: IndexUpdate::Append("bob\n".to_string()),
        confirmation: "Stored secret for \"bob\"".to_string(),
    };
    assert_eq!(
        save.resume(Err(IndexFault::Io("disk full".to_string()))),
        Step::Failed(failure(Context::UpdatingIndex, Error::IndexIoError("disk full".to_string())))
    );
}

#[test]
fn index_fault_becomes_error() {
    assert_eq!(IndexFault::NoConfigDir.into_error(), Error::ConfigDirUnavailable);
    assert_eq!(IndexFault::Io("x".to_string()).into_error(), Error::IndexIoError("x".to_string()));
}

#[test]
fn code_reads_the_store_first() {
    assert_eq!(
        begin(code("bob", 6, 30, "sha1")),
        Step::ReadStore(StoreRead {
            account: "bob".to_string(),
            digits: 6,
            period: 30,
            algorithm: "sha1".to_string(),
        })
    );
}

#[test]
fn code_of_unknown_account_fails() {
    let mut world = World::new();
    assert_eq!(
        world.run(code("bob", 6, 30, "sha1")),
        Err(failure(
            Context::ReadingSecret,
            Error::CredentialStoreError("No matching entry found".to_string())
        ))
    );
}

#[test]
fn code_of_undecodable_stored_secret_fails() {
    let mut world = World::new();
    world.store.insert("bob".to_string(), "!!".to_string());
    assert_eq!(
        world.run(code("bob", 6, 30, "sha1")),
        Err(failure(Context::DecodingStoredSecret, Error::InvalidEncoding))
    );
}

#[test]
fn code_with_unknown_algorithm_fails() {
    let mut world = World::new();
    world.run(add("bob", BOB_SECRET)).unwrap();
    assert_eq!(
        world.run(code("bob", 6, 30, "md5")),
        Err(failure(Context::ConfiguringTotp, Error::UnsupportedAlgorithm("md5".to_string())))
    );
}

#[test]
fn code_with_invalid_digits_fails() {
    let mut world = World::new();
    world.run(add("bob", BOB_SECRET)).unwrap();
    for digits in [5, 9] {
        assert_eq!(
            world.run(code("bob", digits, 30, "sha1")),
            Err(failure(Context::ConfiguringTotp, Error::InvalidTotpConfig))
        );
    }
}

#[test]
fn code_with_short_stored_secret_fails() {
    let mut world = World::new();
    world.store.insert("bob".to_string(), "JBSWY3DPEHPK3PXP".to_string());
    assert_eq!(
        world.run(code("bob", 6, 30, "sha1")),
        Err(failure(Context::ConfiguringTotp, Error::InvalidTotpConfig))
    );
}

#[test]
fn code_shows_the_present_code() {
    let mut world = World::new();
    world.run(add("bob", BOB_SECRET)).unwrap();
    let key = raptor::secret::decode_secret(BOB_SECRET).unwrap();
    for (digits, algorithm) in [(6, "sha1"), (7, "SHA256"), (8, "Sha512")] {
        let params = resolve(algorithm, digits, 30, key.clone()).unwrap();
        let before = SystemTime::now().duration_since(UNIX_EPOCH).unwrap().as_secs();
        let lines = world.run(code("bob", digits, 30, algorithm)).unwrap();
        let after = SystemTime::now().duration_since(UNIX_EPOCH).unwrap().as_secs();
        assert_eq!(lines.len(), 1);
        let shown = lines[0].strip_prefix("Code for bob: ").unwrap();
        assert_eq!(shown.len(), digits);
        assert!(shown.chars().all(|c| c.is_ascii_digit()));
        assert!((before..=after).any(|time| generate_at(&params, time) == shown));
    }
    assert_eq!((world.store_writes, world.index_writes), (1, 1));
}

#[test]
fn shown_code_or_failure() {
    assert_eq!(
        show_code("bob", Ok("012345".to_string())),
        Step::Done(vec!["Code for bob: 012345".to_string()])
    );
    assert_eq!(
        show_code("bob", Err(Error::CodeGenerationError)),
        Step::Failed(failure(Context::GeneratingCode, Error::CodeGenerationError))
    );
}

#[test]
fn context_texts() {
    assert_eq!(Context::ValidatingSecret.text(), "invalid Base32 secret");
    assert_eq!(Context::WritingSecret.text(), "writing secret to keyring");
    assert_eq!(Context::DeletingSecret.text(), "deleting secret from keyring");
    assert_eq!(Context::UpdatingIndex.text(), "updating account index");
    assert_eq!(Context::ListingAccounts.text(), "listing accounts");
    assert_eq!(Context::ReadingSecret.text(), "no secret found for that account");
    assert_eq!(Context::DecodingStoredSecret.text(), "invalid Base32 secret in keyring");
    assert_eq!(Context::ConfiguringTotp.text(), "configuring TOTP");
    assert_eq!(Context::GeneratingCode.text(), "generating code");
}

#[test]
fn error_messages() {
    assert_eq!(Error::InvalidEncoding.message(), "invalid Base32 secret");
    assert_eq!(
        Error::SecretTooShort { bytes: 10, bits: 80 }.message(),
        "secret too short: got 10 bytes (80 bits), need \u{2265}16 bytes (128 bits)\n\
         Are you sure this is a valid Base32-encoded TOTP secret?"
    );
    assert_eq!(
        Error::UnsupportedAlgorithm("md5".to_string()).message(),
        "unsupported algorithm: md5"
    );
    assert_eq!(Error::CredentialStoreError("locked".to_string()).message(), "locked");
    assert_eq!(Error::IndexIoError("disk full".to_string()).message(), "disk full");
    assert_eq!(Error::ConfigDirUnavailable.message(), "could not find config dir");
    assert!(!Error::InvalidTotpConfig.message().is_empty());
    assert!(!Error::CodeGenerationError.message().is_empty());
}

#[test]
fn lengths_are_written_in_decimal() {
    for (bytes, text) in [(0usize, "0"), (7, "7"), (9, "9"), (10, "10"), (15, "15")] {
        let message = Error::SecretTooShort { bytes, bits: bytes * 8 }.message();
        let expected = format!("secret too short: got {} bytes ({} bits), need", text, bytes * 8);
        assert!(message.starts_with(&expected), "{}", message);
    }
    let message = Error::SecretTooShort { bytes: 1234567890, bits: usize::MAX }.message();
    assert!(message.starts_with(&format!("secret too short: got 1234567890 bytes ({} bits)", usize::MAX)));
}

#[test]
fn failure_is_described_with_its_context() {
    let failed = failure(Context::UpdatingIndex, Error::IndexIoError("disk full".to_string()));
    assert_eq!(failed.describe(), "updating account index: disk full");
    let failed = failure(Context::ConfiguringTotp, Error::UnsupportedAlgorithm("md5".to_string()));
    assert_eq!(failed.describe(), "configuring TOTP: unsupported algorithm: md5");
}
