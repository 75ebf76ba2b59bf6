//! The four commands, each as a short exchange with its caller.
//!
//! A command never reaches the credential store or the index file itself.
//! [`begin`] answers with a [`Step`]: either the command has ended, or it
//! names one thing for the caller to do. The caller does it and hands the
//! outcome to the `resume` method of what it was given, which answers with
//! the next step.

use crate::error::{Error, ErrorView};
use crate::index::{
    add_change, content_of, index_add, index_remove, list_accounts, listing, remove_change,
    texts_of, IndexChange, IndexUpdate,
};
use crate::secret::{decodable_length, decode_secret, decoded_secret, validate_secret, validated_secret};
use crate::totp::{generate_current, resolve, resolved, TotpParamsView};
use vstd::prelude::*;
use vstd::string::*;

verus! {

/// The name under which the secrets are kept in the credential store, and of
/// the directory that holds the index.
pub const SERVICE: &'static str = "raptor";

/// The name of the index file in that directory.
pub const INDEX_FILE: &'static str = "accounts";

/// What the user asks for.
#[derive(Debug, Clone, PartialEq, Eq)]
pub enum Command {
    /// Keep `secret` for `account`.
    Add { account: String, secret: String },
    /// Forget the secret of `account`.
    Remove { account: String },
    /// Show the accounts.
    List,
    /// Show the present code of `account`.
    Code { account: String, digits: usize, period: u64, algorithm: String },
}

/// A [`Command`] with its texts as sequences of characters.
pub enum CommandView {
    Add { account: Seq<char>, secret: Seq<char> },
    Remove { account: Seq<char> },
    List,
    Code { account: Seq<char>, digits: usize, period: u64, algorithm: Seq<char> },
}

impl View for Command {
    type V = CommandView;

    open spec fn view(&self) -> CommandView {
        match self {
            Command::Add { account, secret } => CommandView::Add {
                account: account@,
                secret: secret@,
            },
            Command::Remove { account } => CommandView::Remove { account: account@ },
            Command::List => CommandView::List,
            Command::Code { account, digits, period, algorithm } => CommandView::Code {
                account: account@,
                digits: *digits,
                period: *period,
                algorithm: algorithm@,
            },
        }
    }
}

impl CommandView {
    /// A command that can be begun: a secret to add is short enough to be
    /// decoded.
    pub open spec fn wf(self) -> bool {
        match self {
            CommandView::Add { secret, .. } => decodable_length(secret),
            _ => true,
        }
    }
}

/// The part of a command in which an error arose.
#[derive(Debug, Clone, Copy, PartialEq, Eq, Structural)]
pub enum Context {
    ValidatingSecret,
    WritingSecret,
    DeletingSecret,
    UpdatingIndex,
    ListingAccounts,
    ReadingSecret,
    DecodingStoredSecret,
    ConfiguringTotp,
    GeneratingCode,
}

impl Context {
    /// The part in words.
    pub open spec fn label(self) -> Seq<char> {
        match self {
            Context::ValidatingSecret => "invalid Base32 secret"@,
            Context::WritingSecret => "writing secret to keyring"@,
            Context::DeletingSecret => "deleting secret from keyring"@,
            Context::UpdatingIndex => "updating account index"@,
            Context::ListingAccounts => "listing accounts"@,
            Context::ReadingSecret => "no secret found for that account"@,
            Context::DecodingStoredSecret => "invalid Base32 secret in keyring"@,
            Context::ConfiguringTotp => "configuring TOTP"@,
            Context::GeneratingCode => "generating code"@,
        }
    }

    /// The part in words, for the user.
    pub fn text(self) -> (text: &'static str)
        ensures
            text@ == self.label(),
    {
        match self {
            Context::ValidatingSecret => "invalid Base32 secret",
            Context::WritingSecret => "writing secret to keyring",
            Context::DeletingSecret => "deleting secret from keyring",
            Context::UpdatingIndex => "updating account index",
            Context::ListingAccounts => "listing accounts",
            Context::ReadingSecret => "no secret found for that account",
            Context::DecodingStoredSecret => "invalid Base32 secret in keyring",
            Context::ConfiguringTotp => "configuring TOTP",
            Context::GeneratingCode => "generating code",
        }
    }
}

/// An error together with the part of the command in which it arose.
#[derive(Debug, Clone, PartialEq, Eq)]
pub struct Failure {
    pub context: Context,
    pub error: Error,
}

/// A [`Failure`] with its texts as sequences of characters.
pub struct FailureView {
    pub context: Context,
    pub error: ErrorView,
}

impl View for Failure {
    type V = FailureView;

    open spec fn view(&self) -> FailureView {
        FailureView { context: self.context, error: self.error@ }
    }
}

impl FailureView {
    /// The failure in one line: where it arose, then why.
    pub open spec fn description(self) -> Seq<char> {
        self.context.label() + ": "@ + self.error.message()
    }
}

impl Failure {
    /// The failure in one line, for the user: where it arose, then why.
    pub fn describe(&self) -> (text: String)
        ensures
            text@ == self@.description(),
    {
        let mut text = self.context.text().to_owned();
        text.append(": ");
        text.append(self.error.message().as_str());
        text
    }
}

/// Why the index file could not be read or written.
#[derive(Debug, Clone, PartialEq, Eq)]
pub enum IndexFault {
    /// The platform names no configuration directory.
    NoConfigDir,
    /// Reading, writing or making the directory failed; the text says why.
    Io(String),
}

/// An [`IndexFault`] with its text as a sequence of characters.
pub enum IndexFaultView {
    NoConfigDir,
    Io(Seq<char>),
}

impl View for IndexFault {
    type V = IndexFaultView;

    open spec fn view(&self) -> IndexFaultView {
        match self {
            IndexFault::NoConfigDir => IndexFaultView::NoConfigDir,
            IndexFault::Io(detail) => IndexFaultView::Io(detail@),
        }
    }
}

impl IndexFaultView {
    /// The error that stands for the fault.
    pub open spec fn error(self) -> ErrorView {
        match self {
            IndexFaultView::NoConfigDir => ErrorView::ConfigDirUnavailable,
            IndexFaultView::Io(detail) => ErrorView::IndexIoError(detail),
        }
    }
}

impl IndexFault {
    /// The error that stands for the fault.
    pub fn into_error(self) -> (error: Error)
        ensures
            error@ == self@.error(),
    {
        match self {
            IndexFault::NoConfigDir => Error::ConfigDirUnavailable,
            IndexFault::Io(detail) => Error::IndexIoError(detail),
        }
    }
}

/// A change to make in the credential store, under the name [`SERVICE`].
#[derive(Debug, Clone, PartialEq, Eq)]
pub enum StoreWrite {
    /// Keep `secret`, as it is, for `account`.
    Put { account: String, secret: String },
    /// Delete what is kept for `account`.
    Delete { account: String },
}

/// A [`StoreWrite`] with its texts as sequences of characters.
pub enum StoreWriteView {
    Put { account: Seq<char>, secret: Seq<char> },
    Delete { account: Seq<char> },
}

impl View for StoreWrite {
    type V = StoreWriteView;

    open spec fn view(&self) -> StoreWriteView {
        match self {
            StoreWrite::Put { account, secret } => StoreWriteView::Put {
                account: account@,
                secret: secret@,
            },
            StoreWrite::Delete { account } => StoreWriteView::Delete { account: account@ },
        }
    }
}

/// The secret of `account` is to be read from the credential store, under
/// the name [`SERVICE`]; the other fields are kept for the code.
#[derive(Debug, Clone, PartialEq, Eq)]
pub struct StoreRead {
    pub account: String,
    pub digits: usize,
    pub period: u64,
    pub algorithm: String,
}

/// A [`StoreRead`] with its texts as sequences of characters.
pub struct StoreReadView {
    pub account: Seq<char>,
    pub digits: usize,
    pub period: u64,
    pub algorithm: Seq<char>,
}

impl View for StoreRead {
    type V = StoreReadView;

    open spec fn view(&self) -> StoreReadView {
        StoreReadView {
            account: self.account@,
            digits: self.digits,
            period: self.period,
            algorithm: self.algorithm@,
        }
    }
}

/// The index file is to be read, for one of three ends.
#[derive(Debug, Clone, PartialEq, Eq)]
pub enum IndexLoad {
    /// To add `account` to it.
    ForAdd { account: String },
    /// To remove `account` from it.
    ForRemove { account: String },
    /// To show it.
    ForList,
}

/// An [`IndexLoad`] with its texts as sequences of characters.
pub enum IndexLoadView {
    ForAdd { account: Seq<char> },
    ForRemove { account: Seq<char> },
    ForList,
}

impl View for IndexLoad {
    type V = IndexLoadView;

    open spec fn view(&self) -> IndexLoadView {
        match self {
            IndexLoad::ForAdd { account } => IndexLoadView::ForAdd { account: account@ },
            IndexLoad::ForRemove { account } => IndexLoadView::ForRemove { account: account@ },
            IndexLoad::ForList => IndexLoadView::ForList,
        }
    }
}

/// The index file is to be changed as `update` says; `confirmation` is what
/// to tell the user once that is done.
#[derive(Debug, Clone, PartialEq, Eq)]
pub struct IndexSave {
    pub update: IndexUpdate,
    pub confirmation: String,
}

/// An [`IndexSave`] with its texts as sequences of characters.
pub struct IndexSaveView {
    pub update: IndexChange,
    pub confirmation: Seq<char>,
}

impl View for IndexSave {
    type V = IndexSaveView;

    open spec fn view(&self) -> IndexSaveView {
        IndexSaveView { update: self.update@, confirmation: self.confirmation@ }
    }
}

/// Where a command stands: what its caller is to do next, or how it ended.
#[derive(Debug, Clone, PartialEq, Eq)]
pub enum Step {
    /// Change the credential store, then call [`StoreWrite::resume`].
    WriteStore(StoreWrite),
    /// Read from the credential store, then call [`StoreRead::resume`].
    ReadStore(StoreRead),
    /// Read the index file, then call [`IndexLoad::resume`].
    LoadIndex(IndexLoad),
    /// Change the index file, then call [`IndexSave::resume`].
    SaveIndex(IndexSave),
    /// The command is done; these lines are for the user.
    Done(Vec<String>),
    /// The command has failed.
    Failed(Failure),
}

/// A [`Step`] with its texts as sequences of characters.
pub enum StepView {
    WriteStore(StoreWriteView),
    ReadStore(StoreReadView),
    LoadIndex(IndexLoadView),
    SaveIndex(IndexSaveView),
    Done(Seq<Seq<char>>),
    Failed(FailureView),
}

impl View for Step {
    type V = StepView;

    open spec fn view(&self) -> StepView {
        match self {
            Step::WriteStore(write) => StepView::WriteStore(write@),
            Step::ReadStore(read) => StepView::ReadStore(read@),
            Step::LoadIndex(load) => StepView::LoadIndex(load@),
            Step::SaveIndex(save) => StepView::SaveIndex(save@),
            Step::Done(lines) => StepView::Done(texts_of(lines@)),
            Step::Failed(failure) => StepView::Failed(failure@),
        }
    }
}

/// A failure in `context`.
pub open spec fn failed(context: Context, error: ErrorView) -> StepView {
    StepView::Failed(FailureView { context, error })
}

/// The line that confirms an addition.
pub open spec fn stored_line(account: Seq<char>) -> Seq<char> {
    "Stored secret for \""@ + account + "\""@
}

/// The line that confirms a removal.
pub open spec fn removed_line(account: Seq<char>) -> Seq<char> {
    "Removed secret for \""@ + account + "\""@
}

/// The line that shows a code.
pub open spec fn code_line(account: Seq<char>, code: Seq<char>) -> Seq<char> {
    "Code for "@ + account + ": "@ + code
}

/// The first step of a command. Only `add` can end here: with a secret that
/// is not valid, before anything is written.
pub open spec fn begun(command: CommandView) -> StepView {
    match command {
        CommandView::Add { account, secret } => match validated_secret(secret) {
            Ok(_) => StepView::WriteStore(StoreWriteView::Put { account, secret }),
            Err(error) => failed(Context::ValidatingSecret, error),
        },
        CommandView::Remove { account } => StepView::WriteStore(
            StoreWriteView::Delete { account },
        ),
        CommandView::List => StepView::LoadIndex(IndexLoadView::ForList),
        CommandView::Code { account, digits, period, algorithm } => StepView::ReadStore(
            StoreReadView { account, digits, period, algorithm },
        ),
    }
}

/// The step after a change of the credential store: the index is read next,
/// unless the store failed.
pub open spec fn store_written(write: StoreWriteView, outcome: Result<(), Seq<char>>) -> StepView {
    match write {
        StoreWriteView::Put { account, .. } => match outcome {
            Ok(_) => StepView::LoadIndex(IndexLoadView::ForAdd { account }),
            Err(detail) => failed(Context::WritingSecret, ErrorView::CredentialStoreError(detail)),
        },
        StoreWriteView::Delete { account } => match outcome {
            Ok(_) => StepView::LoadIndex(IndexLoadView::ForRemove { account }),
            Err(detail) => failed(
                Context::DeletingSecret,
                ErrorView::CredentialStoreError(detail),
            ),
        },
    }
}

/// The step that carries out `change` and then confirms, or that confirms at
/// once where there is nothing to change.
pub open spec fn saving(change: IndexChange, confirmation: Seq<char>) -> StepView {
    match change {
        IndexChange::Unchanged => StepView::Done(seq![confirmation]),
        _ => StepView::SaveIndex(IndexSaveView { update: change, confirmation }),
    }
}

/// The step after the index file was read.
pub open spec fn index_loaded(
    load: IndexLoadView,
    outcome: Result<Option<Seq<char>>, IndexFaultView>,
) -> StepView {
    match load {
        IndexLoadView::ForAdd { account } => match outcome {
            Ok(existing) => saving(add_change(existing, account), stored_line(account)),
            Err(fault) => failed(Context::UpdatingIndex, fault.error()),
        },
        IndexLoadView::ForRemove { account } => match outcome {
            Ok(existing) => saving(remove_change(existing, account), removed_line(account)),
            Err(fault) => failed(Context::UpdatingIndex, fault.error()),
        },
        IndexLoadView::ForList => match outcome {
            Ok(existing) => StepView::Done(listing(existing)),
            Err(fault) => failed(Context::ListingAccounts, fault.error()),
        },
    }
}

/// The step after the index file was changed.
pub open spec fn index_saved(save: IndexSaveView, outcome: Result<(), IndexFaultView>) -> StepView {
    match outcome {
        Ok(_) => StepView::Done(seq![save.confirmation]),
        Err(fault) => failed(Context::UpdatingIndex, fault.error()),
    }
}

/// The parameters that a code is made with once the secret was read, or the
/// failure that ends the command before any code is made.
pub open spec fn prepared(read: StoreReadView, outcome: Result<Seq<char>, Seq<char>>) -> Result<
    TotpParamsView,
    FailureView,
> {
    match outcome {
        Err(detail) => Err(
            FailureView {
                context: Context::ReadingSecret,
                error: ErrorView::CredentialStoreError(detail),
            },
        ),
        Ok(secret) => match decoded_secret(secret) {
            None => Err(
                FailureView {
                    context: Context::DecodingStoredSecret,
                    error: ErrorView::InvalidEncoding,
                },
            ),
            Some(key) => match resolved(read.algorithm, read.digits, read.period, key) {
                Ok(params) => Ok(params),
                Err(error) => Err(FailureView { context: Context::ConfiguringTotp, error }),
            },
        },
    }
}

/// The last step of `code`, for what the generator handed back.
pub open spec fn code_shown(account: Seq<char>, generated: Result<Seq<char>, ErrorView>) -> StepView {
    match generated {
        Ok(code) => StepView::Done(seq![code_line(account, code)]),
        Err(error) => failed(Context::GeneratingCode, error),
    }
}

/// The view of the outcome of a change.
pub open spec fn written(outcome: Result<(), String>) -> Result<(), Seq<char>> {
    match outcome {
        Ok(_) => Ok(()),
        Err(detail) => Err(detail@),
    }
}

/// The view of the outcome of reading a secret.
pub open spec fn fetched(outcome: Result<String, String>) -> Result<Seq<char>, Seq<char>> {
    match outcome {
        Ok(secret) => Ok(secret@),
        Err(detail) => Err(detail@),
    }
}

/// The view of the outcome of reading the index file.
pub open spec fn loaded(outcome: Result<Option<String>, IndexFault>) -> Result<
    Option<Seq<char>>,
    IndexFaultView,
> {
    match outcome {
        Ok(Some(text)) => Ok(Some(text@)),
        Ok(None) => Ok(None),
        Err(fault) => Err(fault@),
    }
}

/// The view of the outcome of changing the index file.
pub open spec fn saved(outcome: Result<(), IndexFault>) -> Result<(), IndexFaultView> {
    match outcome {
        Ok(_) => Ok(()),
        Err(fault) => Err(fault@),
    }
}

/// The view of a generated code or of the error in its place.
pub open spec fn generated_view(generated: Result<String, Error>) -> Result<Seq<char>, ErrorView> {
    match generated {
        Ok(code) => Ok(code@),
        Err(error) => Err(error@),
    }
}

fn fail(context: Context, error: Error) -> (step: Step)
    ensures
        step@ == failed(context, error@),
{
    Step::Failed(Failure { context, error })
}

fn one_line(line: String) -> (step: Step)
    ensures
        step@ == StepView::Done(seq![line@]),
{
    let mut lines: Vec<String> = Vec::new();
    lines.push(line);
    assert(texts_of(lines@) =~= seq![line@]);
    Step::Done(lines)
}

fn quoted_line(lead: &str, account: &str) -> (line: String)
    ensures
        line@ == lead@ + account@ + "\""@,
{
    let mut line = lead.to_owned();
    line.append(account);
    line.append("\"");
    line
}

fn save_or_confirm(update: IndexUpdate, confirmation: String) -> (step: Step)
    ensures
        step@ == saving(update@, confirmation@),
{
    match update {
        IndexUpdate::Unchanged => one_line(confirmation),
        _ => Step::SaveIndex(IndexSave { update, confirmation }),
    }
}

/// Starts a command.
///
/// `add` checks the secret first and ends at once, with nothing written, if
/// it is not Base32 or decodes to fewer than 16 bytes.
pub fn begin(command: Command) -> (step: Step)
    requires
        command@.wf(),
    ensures
        step@ == begun(command@),
{
    match command {
        Command::Add { account, secret } => match validate_secret(secret.as_str()) {
            Ok(_) => Step::WriteStore(StoreWrite::Put { account, secret }),
            Err(error) => fail(Context::ValidatingSecret, error),
        },
        Command::Remove { account } => Step::WriteStore(StoreWrite::Delete { account }),
        Command::List => Step::LoadIndex(IndexLoad::ForList),
        Command::Code { account, digits, period, algorithm } => Step::ReadStore(
            StoreRead { account, digits, period, algorithm },
        ),
    }
}

impl StoreWrite {
    /// Goes on after the change of the credential store: `outcome` is `Ok`
    /// if it was made, else what the store said.
    pub fn resume(self, outcome: Result<(), String>) -> (step: Step)
        ensures
            step@ == store_written(self@, written(outcome)),
    {
        match self {
            StoreWrite::Put { account, secret: _ } => match outcome {
                Ok(_) => Step::LoadIndex(IndexLoad::ForAdd { account }),
                Err(detail) => fail(Context::WritingSecret, Error::CredentialStoreError(detail)),
            },
            StoreWrite::Delete { account } => match outcome {
                Ok(_) => Step::LoadIndex(IndexLoad::ForRemove { account }),
                Err(detail) => fail(Context::DeletingSecret, Error::CredentialStoreError(detail)),
            },
        }
    }
}

impl IndexLoad {
    /// Goes on after the index file was read: `outcome` holds its content,
    /// `None` if there is no file, or why it could not be read.
    pub fn resume(self, outcome: Result<Option<String>, IndexFault>) -> (step: Step)
        ensures
            step@ == index_loaded(self@, loaded(outcome)),
    {
        let context = match self {
            IndexLoad::ForList => Context::ListingAccounts,
            _ => Context::UpdatingIndex,
        };
        match outcome {
            Err(fault) => fail(context, fault.into_error()),
            Ok(content) => {
                let existing: Option<&str> = match &content {
                    Some(text) => Some(text.as_str()),
                    None => None,
                };
                assert(content_of(existing) == loaded(outcome)->Ok_0);
                match self {
                    IndexLoad::ForAdd { account } => {
                        let update = index_add(existing, account.as_str());
                        let line = quoted_line("Stored secret for \"", account.as_str());
                        save_or_confirm(update, line)
                    },
                    IndexLoad::ForRemove { account } => {
                        let update = index_remove(existing, account.as_str());
                        let line = quoted_line("Removed secret for \"", account.as_str());
                        save_or_confirm(update, line)
                    },
                    IndexLoad::ForList => Step::Done(list_accounts(existing)),
                }
            },
        }
    }
}

impl IndexSave {
    /// Goes on after the change of the index file: `outcome` is `Ok` if it
    /// was made, else why not.
    pub fn resume(self, outcome: Result<(), IndexFault>) -> (step: Step)
        ensures
            step@ == index_saved(self@, saved(outcome)),
    {
        match outcome {
            Ok(_) => one_line(self.confirmation),
            Err(fault) => fail(Context::UpdatingIndex, fault.into_error()),
        }
    }
}

/// Ends `code`: shows the code that was generated for `account`, or fails
/// with the error that came in its place.
pub fn show_code(account: &str, generated: Result<String, Error>) -> (step: Step)
    ensures
        step@ == code_shown(account@, generated_view(generated)),
{
    match generated {
        Ok(code) => {
            let mut line = "Code for ".to_owned();
            line.append(account);
            line.append(": ");
            line.append(code.as_str());
            one_line(line)
        },
        Err(error) => fail(Context::GeneratingCode, error),
    }
}

impl StoreRead {
    /// Goes on after the secret was read from the credential store:
    /// `outcome` holds it, or what the store said. The secret is decoded, the
    /// parameters are put together and the present code is shown.
    pub fn resume(self, outcome: Result<String, String>) -> (step: Step)
        requires
            self.period > 0,
            outcome matches Ok(secret) ==> decodable_length(secret@),
        ensures
            match prepared(self@, fetched(outcome)) {
                Err(failure) => step@ == StepView::Failed(failure),
                Ok(params) => {
                    ||| step@ == failed(Context::GeneratingCode, ErrorView::CodeGenerationError)
                    ||| exists|code: Seq<char>|
                        {
                            &&& #[trigger] params.gives(code)
                            &&& step@ == StepView::Done(seq![code_line(self.account@, code)])
                        }
                },
            },
    {
        match outcome {
            Err(detail) => fail(Context::ReadingSecret, Error::CredentialStoreError(detail)),
            Ok(secret) => match decode_secret(secret.as_str()) {
                Err(error) => fail(Context::DecodingStoredSecret, error),
                Ok(key) => match resolve(self.algorithm.as_str(), self.digits, self.period, key) {
                    Err(error) => fail(Context::ConfiguringTotp, error),
                    Ok(params) => {
                        let generated = generate_current(&params);
                        proof {
                            if generated is Ok {
                                assert(params@.gives(generated->Ok_0@));
                            }
                        }
                        show_code(self.account.as_str(), generated)
                    },
                },
            },
        }
    }
}

} // verus!
