//! Replacing a file in one step: the data goes to a temporary file beside it, which is
//! then renamed into place.
use crate::path;
use crate::path::PosixPath;
use crate::resolve::Step;
use crate::text;
use crate::text::{bytes_of, hex_padded_bytes};
use vstd::prelude::*;
use vstd::string::*;
use vstd::utf8::*;

verus! {

/// How many names are tried for a temporary file.
pub const TEMP_FILE_ATTEMPTS: u8 = 16;

/// How many hexadecimal digits of a random number a temporary file's name ends with.
pub const NONCE_DIGITS: usize = 16;

/// The name of a temporary file for a file name: hidden, and told apart by `nonce`.
pub open spec fn temp_name(file_name: Seq<u8>, nonce: u64) -> Seq<u8> {
    seq![path::DOT] + file_name + encode_utf8(".anda-tmp-"@) + text::hex_padded(
        nonce as nat,
        NONCE_DIGITS as nat,
    )
}

/// The error for a target without a parent directory.
pub open spec fn no_parent_error(target: Seq<u8>) -> Seq<char> {
    "Failed to determine parent directory for write target (target_path: "@ + text::as_text(
        target,
    ) + ")"@
}

/// The error for a target that does not end in a name.
pub open spec fn no_name_error(target: Seq<u8>) -> Seq<char> {
    "Failed to determine file name for write target (target_path: "@ + text::as_text(target)
        + ")"@
}

/// The temporary file for a target: in the same directory.
pub open spec fn temp_path(target: Seq<u8>, nonce: u64) -> Result<Seq<u8>, Seq<char>> {
    match (path::parent(target), path::file_name(target)) {
        (None, _) => Err(no_parent_error(target)),
        (Some(_), None) => Err(no_name_error(target)),
        (Some(parent), Some(name)) => Ok(path::join(parent, temp_name(name, nonce))),
    }
}

/// The result as bytes and text.
pub open spec fn result_model(result: Result<PosixPath, String>) -> Result<Seq<u8>, Seq<char>> {
    match result {
        Ok(path) => Ok(path@),
        Err(error) => Err(error@),
    }
}

/// Calls [`rand::random`]: any number. It panics where the system gives no randomness to
/// start from.
#[verifier::external_body]
fn random_nonce() -> (nonce: u64) {
    rand::random::<u64>()
}

/// The temporary file for a target that `nonce` tells apart.
pub fn atomic_temp_path_with(target: &PosixPath, nonce: u64) -> (result: Result<PosixPath, String>)
    ensures
        result_model(result) == temp_path(target@, nonce),
{
    let parent = match target.parent() {
        Some(parent) => parent,
        None => {
            let mut error =
                "Failed to determine parent directory for write target (target_path: ".to_string();
            error.append(target.display().as_str());
            error.append(")");
            return Err(error);
        },
    };
    let file_name = match target.file_name() {
        Some(file_name) => file_name,
        None => {
            let mut error =
                "Failed to determine file name for write target (target_path: ".to_string();
            error.append(target.display().as_str());
            error.append(")");
            return Err(error);
        },
    };
    let ghost named = file_name@;
    let mut name: Vec<u8> = Vec::new();
    name.push(path::DOT);
    let mut file_name = file_name;
    name.append(&mut file_name);
    let mut marker = bytes_of(".anda-tmp-");
    name.append(&mut marker);
    let mut digits = hex_padded_bytes(nonce, NONCE_DIGITS);
    name.append(&mut digits);
    assert(name@ == temp_name(named, nonce));
    Ok(parent.join_bytes(name.as_slice()))
}

/// A temporary file for a target, told apart by a random number.
pub fn atomic_temp_path(target: &PosixPath) -> (result: Result<PosixPath, String>)
    ensures
        exists|nonce: u64| result_model(result) == #[trigger] temp_path(target@, nonce),
{
    let nonce: u64 = random_nonce();
    atomic_temp_path_with(target, nonce)
}

/// What a replacement asks of the file system.
pub enum WriteRequest<P> {
    /// A new, empty file at the path, which must not exist.
    CreateNew(P),
    /// The data written to the file that was created.
    WriteAll(P),
    /// The permissions of the file that is replaced, given to the one that was created.
    SetPermissions(P),
    /// The file that was created brought to the disk.
    Sync(P),
    /// The file that was created removed; whether that works is not asked.
    Remove(P),
    /// The file that was created renamed to the target.
    Rename { from: P, to: P },
}

/// What the file system answers.
pub enum WriteReply<T> {
    /// It is done.
    Done,
    /// A file that was to be created exists.
    AlreadyExists,
    /// It failed, for the reason given.
    Failed(T),
}

impl<P: DeepView> DeepView for WriteRequest<P> {
    type V = WriteRequest<P::V>;

    open spec fn deep_view(&self) -> WriteRequest<P::V> {
        match self {
            WriteRequest::CreateNew(path) => WriteRequest::CreateNew(path.deep_view()),
            WriteRequest::WriteAll(path) => WriteRequest::WriteAll(path.deep_view()),
            WriteRequest::SetPermissions(path) => WriteRequest::SetPermissions(path.deep_view()),
            WriteRequest::Sync(path) => WriteRequest::Sync(path.deep_view()),
            WriteRequest::Remove(path) => WriteRequest::Remove(path.deep_view()),
            WriteRequest::Rename { from, to } => WriteRequest::Rename {
                from: from.deep_view(),
                to: to.deep_view(),
            },
        }
    }
}

impl<T: DeepView> DeepView for WriteReply<T> {
    type V = WriteReply<T::V>;

    open spec fn deep_view(&self) -> WriteReply<T::V> {
        match self {
            WriteReply::Done => WriteReply::Done,
            WriteReply::AlreadyExists => WriteReply::AlreadyExists,
            WriteReply::Failed(error) => WriteReply::Failed(error.deep_view()),
        }
    }
}

/// Why something was not done. An answer that gives no reason stands for an empty one.
pub open spec fn failure(reply: WriteReply<Seq<char>>) -> Option<Seq<char>> {
    match reply {
        WriteReply::Done => None,
        WriteReply::AlreadyExists => Some(Seq::empty()),
        WriteReply::Failed(error) => Some(error),
    }
}

/// Reads a reply as a failure, where it is one.
fn failure_text(reply: WriteReply<String>) -> (error: Option<String>)
    ensures
        error is Some <==> failure(reply.deep_view()) is Some,
        error matches Some(error) ==> failure(reply.deep_view()) == Some(error@),
{
    match reply {
        WriteReply::Done => None,
        WriteReply::AlreadyExists => Some(String::new()),
        WriteReply::Failed(error) => Some(error),
    }
}

/// The error of a step of a temporary file's preparation.
pub open spec fn temp_error(
    what: Seq<char>,
    target: Seq<u8>,
    temp: Seq<u8>,
    error: Seq<char>,
) -> Seq<char> {
    what + " (target_path: "@ + text::as_text(target) + ", temp_path: "@ + text::as_text(temp)
        + "): "@ + error
}

/// The error for a target for which every name that was tried exists.
pub open spec fn no_unique_name_error(target: Seq<u8>) -> Seq<char> {
    "Failed to allocate unique temporary file for atomic write (target_path: "@ + text::as_text(
        target,
    ) + ")"@
}

/// Writes the error of a step of a temporary file's preparation.
fn temp_failure(what: &str, target: &PosixPath, temp: &PosixPath, error: &str) -> (message: String)
    ensures
        message@ == temp_error(what@, target@, temp@, error@),
{
    let mut message = what.to_string();
    message.append(" (target_path: ");
    message.append(target.display().as_str());
    message.append(", temp_path: ");
    message.append(temp.display().as_str());
    message.append("): ");
    message.append(error);
    message
}

/// How far the preparation of a temporary file has come.
pub enum TempPhase<T> {
    /// The file is to be created; so many more names may be tried after this one.
    Creating { retries: u8 },
    /// The data is to be written.
    Writing,
    /// The permissions are to be set.
    Permitting,
    /// The file is to be brought to the disk.
    Syncing,
    /// The file is to be removed, for the reason given.
    Discarding { error: T },
}

/// The preparation of a temporary file that is to replace `target`.
pub struct TempFileWrite<P, T> {
    pub target: P,
    pub temp: P,
    pub sets_permissions: bool,
    pub phase: TempPhase<T>,
}

/// The model of a preparation.
pub type TempModel = TempFileWrite<Seq<u8>, Seq<char>>;

impl<T: DeepView> DeepView for TempPhase<T> {
    type V = TempPhase<T::V>;

    open spec fn deep_view(&self) -> TempPhase<T::V> {
        match self {
            TempPhase::Creating { retries } => TempPhase::Creating { retries: *retries },
            TempPhase::Writing => TempPhase::Writing,
            TempPhase::Permitting => TempPhase::Permitting,
            TempPhase::Syncing => TempPhase::Syncing,
            TempPhase::Discarding { error } => TempPhase::Discarding { error: error.deep_view() },
        }
    }
}

impl<P: DeepView, T: DeepView> DeepView for TempFileWrite<P, T> {
    type V = TempFileWrite<P::V, T::V>;

    open spec fn deep_view(&self) -> TempFileWrite<P::V, T::V> {
        TempFileWrite {
            target: self.target.deep_view(),
            temp: self.temp.deep_view(),
            sets_permissions: self.sets_permissions,
            phase: self.phase.deep_view(),
        }
    }
}

impl TempFileWrite<Seq<u8>, Seq<char>> {
    /// The preparation that tries the name with `nonce`, and so many more after it.
    pub open spec fn trying(
        target: Seq<u8>,
        sets_permissions: bool,
        retries: u8,
        nonce: u64,
    ) -> Step<TempModel, Seq<u8>, Seq<char>> {
        match temp_path(target, nonce) {
            Ok(temp) => Step::Continue(
                TempFileWrite {
                    target,
                    temp,
                    sets_permissions,
                    phase: TempPhase::Creating { retries },
                },
            ),
            Err(error) => Step::Refused(error),
        }
    }

    /// The start of a preparation.
    pub open spec fn start(target: Seq<u8>, sets_permissions: bool, nonce: u64) -> Step<
        TempModel,
        Seq<u8>,
        Seq<char>,
    > {
        TempFileWrite::trying(target, sets_permissions, (TEMP_FILE_ATTEMPTS - 1) as u8, nonce)
    }

    /// The same preparation in another phase.
    pub open spec fn enters(self, phase: TempPhase<Seq<char>>) -> Step<
        TempModel,
        Seq<u8>,
        Seq<char>,
    > {
        Step::Continue(TempFileWrite { phase, ..self })
    }

    /// The preparation given up after `what` failed.
    pub open spec fn gives_up(self, what: Seq<char>, error: Seq<char>) -> Step<
        TempModel,
        Seq<u8>,
        Seq<char>,
    > {
        self.enters(
            TempPhase::Discarding { error: temp_error(what, self.target, self.temp, error) },
        )
    }

    /// What the preparation asks for.
    pub open spec fn asks(self) -> WriteRequest<Seq<u8>> {
        match self.phase {
            TempPhase::Creating { .. } => WriteRequest::CreateNew(self.temp),
            TempPhase::Writing => WriteRequest::WriteAll(self.temp),
            TempPhase::Permitting => WriteRequest::SetPermissions(self.temp),
            TempPhase::Syncing => WriteRequest::Sync(self.temp),
            TempPhase::Discarding { .. } => WriteRequest::Remove(self.temp),
        }
    }

    /// How the preparation goes on. Where another name is to be tried, `nonce` gives it.
    ///
    /// A file that was created and could not be prepared is removed.
    pub open spec fn after(self, reply: WriteReply<Seq<char>>, nonce: u64) -> Step<
        TempModel,
        Seq<u8>,
        Seq<char>,
    > {
        match self.phase {
            TempPhase::Creating { retries } => match reply {
                WriteReply::Done => self.enters(TempPhase::Writing),
                WriteReply::AlreadyExists => if retries == 0 {
                    Step::Refused(no_unique_name_error(self.target))
                } else {
                    TempFileWrite::trying(
                        self.target,
                        self.sets_permissions,
                        (retries - 1) as u8,
                        nonce,
                    )
                },
                WriteReply::Failed(error) => Step::Refused(
                    temp_error("Failed to create temporary file"@, self.target, self.temp, error),
                ),
            },
            TempPhase::Writing => match failure(reply) {
                None => self.enters(
                    if self.sets_permissions {
                        TempPhase::Permitting
                    } else {
                        TempPhase::Syncing
                    },
                ),
                Some(error) => self.gives_up("Failed to write temporary file"@, error),
            },
            TempPhase::Permitting => match failure(reply) {
                None => self.enters(TempPhase::Syncing),
                Some(error) => self.gives_up("Failed to apply file permissions"@, error),
            },
            TempPhase::Syncing => match failure(reply) {
                None => Step::Found(self.temp),
                Some(error) => self.gives_up("Failed to sync temporary file"@, error),
            },
            TempPhase::Discarding { error } => Step::Refused(error),
        }
    }
}

/// Tries the name with `nonce`, and so many more after it.
fn try_temp_file(
    target: PosixPath,
    sets_permissions: bool,
    retries: u8,
    nonce: u64,
) -> (step: Step<TempFileWrite<PosixPath, String>, PosixPath, String>)
    ensures
        step.deep_view() == TempFileWrite::trying(target@, sets_permissions, retries, nonce),
{
    match atomic_temp_path_with(&target, nonce) {
        Ok(temp) => Step::Continue(
            TempFileWrite {
                target,
                temp,
                sets_permissions,
                phase: TempPhase::Creating { retries },
            },
        ),
        Err(error) => Step::Refused(error),
    }
}

/// Starts to prepare a temporary file whose first name `nonce` gives.
pub fn write_temp_file_with(target: &PosixPath, sets_permissions: bool, nonce: u64) -> (step: Step<
    TempFileWrite<PosixPath, String>,
    PosixPath,
    String,
>)
    ensures
        step.deep_view() == TempFileWrite::start(target@, sets_permissions, nonce),
{
    try_temp_file(target.clone(), sets_permissions, TEMP_FILE_ATTEMPTS - 1, nonce)
}

/// Starts to prepare a temporary file that is to replace the target.
pub fn write_temp_file_for_atomic_replace(target: &PosixPath, sets_permissions: bool) -> (step:
    Step<TempFileWrite<PosixPath, String>, PosixPath, String>)
    ensures
        exists|nonce: u64|
            step.deep_view() == #[trigger] TempFileWrite::start(target@, sets_permissions, nonce),
{
    let nonce: u64 = random_nonce();
    write_temp_file_with(target, sets_permissions, nonce)
}

impl TempFileWrite<PosixPath, String> {
    /// What the preparation asks for.
    pub fn request(&self) -> (request: WriteRequest<PosixPath>)
        ensures
            request.deep_view() == self.deep_view().asks(),
    {
        match &self.phase {
            TempPhase::Creating { .. } => WriteRequest::CreateNew(self.temp.clone()),
            TempPhase::Writing => WriteRequest::WriteAll(self.temp.clone()),
            TempPhase::Permitting => WriteRequest::SetPermissions(self.temp.clone()),
            TempPhase::Syncing => WriteRequest::Sync(self.temp.clone()),
            TempPhase::Discarding { .. } => WriteRequest::Remove(self.temp.clone()),
        }
    }

    /// The same preparation in another phase.
    fn enter(self, phase: TempPhase<String>) -> (step: Step<
        TempFileWrite<PosixPath, String>,
        PosixPath,
        String,
    >)
        ensures
            step.deep_view() == self.deep_view().enters(phase.deep_view()),
    {
        Step::Continue(
            TempFileWrite {
                target: self.target,
                temp: self.temp,
                sets_permissions: self.sets_permissions,
                phase,
            },
        )
    }

    /// Gives up after `what` failed.
    fn give_up(self, what: &str, error: &str) -> (step: Step<
        TempFileWrite<PosixPath, String>,
        PosixPath,
        String,
    >)
        ensures
            step.deep_view() == self.deep_view().gives_up(what@, error@),
    {
        let error = temp_failure(what, &self.target, &self.temp, error);
        self.enter(TempPhase::Discarding { error })
    }

    /// Takes the answer to what the preparation asked for. Where another name is to be
    /// tried, `nonce` gives it.
    pub fn reply_with(self, reply: WriteReply<String>, nonce: u64) -> (step: Step<
        TempFileWrite<PosixPath, String>,
        PosixPath,
        String,
    >)
        ensures
            step.deep_view() == self.deep_view().after(reply.deep_view(), nonce),
    {
        match &self.phase {
            TempPhase::Creating { retries } => {
                let retries: u8 = *retries;
                match reply {
                    WriteReply::Done => self.enter(TempPhase::Writing),
                    WriteReply::AlreadyExists => if retries == 0 {
                        let mut message =
                            "Failed to allocate unique temporary file for atomic write (target_path: ".to_string();
                        message.append(self.target.display().as_str());
                        message.append(")");
                        Step::Refused(message)
                    } else {
                        try_temp_file(self.target, self.sets_permissions, retries - 1, nonce)
                    },
                    WriteReply::Failed(error) => Step::Refused(
                        temp_failure(
                            "Failed to create temporary file",
                            &self.target,
                            &self.temp,
                            error.as_str(),
                        ),
                    ),
                }
            },
            TempPhase::Writing => match failure_text(reply) {
                None => {
                    let phase = if self.sets_permissions {
                        TempPhase::Permitting
                    } else {
                        TempPhase::Syncing
                    };
                    self.enter(phase)
                },
                Some(error) => self.give_up("Failed to write temporary file", error.as_str()),
            },
            TempPhase::Permitting => match failure_text(reply) {
                None => self.enter(TempPhase::Syncing),
                Some(error) => self.give_up("Failed to apply file permissions", error.as_str()),
            },
            TempPhase::Syncing => match failure_text(reply) {
                None => Step::Found(self.temp),
                Some(error) => self.give_up("Failed to sync temporary file", error.as_str()),
            },
            TempPhase::Discarding { error } => Step::Refused(error.clone()),
        }
    }

    /// Takes the answer to what the preparation asked for.
    pub fn reply(self, reply: WriteReply<String>) -> (step: Step<
        TempFileWrite<PosixPath, String>,
        PosixPath,
        String,
    >)
        ensures
            exists|nonce: u64|
                step.deep_view() == #[trigger] self.deep_view().after(reply.deep_view(), nonce),
    {
        let nonce: u64 = match &reply {
            WriteReply::AlreadyExists => random_nonce(),
            _ => 0,
        };
        self.reply_with(reply, nonce)
    }
}

/// The error for a temporary file that could not be renamed into place.
pub open spec fn replace_error(temp: Seq<u8>, target: Seq<u8>, error: Seq<char>) -> Seq<char> {
    "Failed to atomically replace file (temp_path: "@ + text::as_text(temp) + ", target_path: "@
        + text::as_text(target) + "): "@ + error
}

/// What becomes of a replacement once the renaming has been tried.
pub fn commit_atomic_replace(
    temp: &PosixPath,
    target: &PosixPath,
    renamed: Result<(), String>,
) -> (result: Result<(), String>)
    ensures
        renamed is Ok <==> result is Ok,
        renamed matches Err(error) ==> (result matches Err(message) && message@ == replace_error(
            temp@,
            target@,
            error@,
        )),
{
    match renamed {
        Ok(()) => Ok(()),
        Err(error) => {
            let mut message = "Failed to atomically replace file (temp_path: ".to_string();
            message.append(temp.display().as_str());
            message.append(", target_path: ");
            message.append(target.display().as_str());
            message.append("): ");
            message.append(error.as_str());
            Err(message)
        },
    }
}

/// A replacement: first a temporary file is prepared, then it is renamed into place.
pub enum AtomicWrite<P, T> {
    /// The temporary file is prepared.
    Preparing(TempFileWrite<P, T>),
    /// The temporary file is to be renamed.
    Committing { target: P, temp: P },
    /// The temporary file is to be removed, for the reason given.
    Discarding { target: P, temp: P, error: T },
}

/// The model of a replacement.
pub type AtomicModel = AtomicWrite<Seq<u8>, Seq<char>>;

impl<P: DeepView, T: DeepView> DeepView for AtomicWrite<P, T> {
    type V = AtomicWrite<P::V, T::V>;

    open spec fn deep_view(&self) -> AtomicWrite<P::V, T::V> {
        match self {
            AtomicWrite::Preparing(preparation) => AtomicWrite::Preparing(preparation.deep_view()),
            AtomicWrite::Committing { target, temp } => AtomicWrite::Committing {
                target: target.deep_view(),
                temp: temp.deep_view(),
            },
            AtomicWrite::Discarding { target, temp, error } => AtomicWrite::Discarding {
                target: target.deep_view(),
                temp: temp.deep_view(),
                error: error.deep_view(),
            },
        }
    }
}

impl AtomicWrite<Seq<u8>, Seq<char>> {
    /// The replacement whose preparation goes on so.
    pub open spec fn prepared(
        target: Seq<u8>,
        step: Step<TempModel, Seq<u8>, Seq<char>>,
    ) -> Step<AtomicModel, (), Seq<char>> {
        match step {
            Step::Continue(preparation) => Step::Continue(AtomicWrite::Preparing(preparation)),
            Step::Found(temp) => Step::Continue(AtomicWrite::Committing { target, temp }),
            Step::Refused(error) => Step::Refused(error),
        }
    }

    /// The start of a replacement.
    pub open spec fn start(target: Seq<u8>, sets_permissions: bool, nonce: u64) -> Step<
        AtomicModel,
        (),
        Seq<char>,
    > {
        AtomicWrite::prepared(target, TempFileWrite::start(target, sets_permissions, nonce))
    }

    /// What the replacement asks for.
    pub open spec fn asks(self) -> WriteRequest<Seq<u8>> {
        match self {
            AtomicWrite::Preparing(preparation) => preparation.asks(),
            AtomicWrite::Committing { target, temp } => WriteRequest::Rename {
                from: temp,
                to: target,
            },
            AtomicWrite::Discarding { temp, .. } => WriteRequest::Remove(temp),
        }
    }

    /// How the replacement goes on. A temporary file that could not be renamed is
    /// removed.
    pub open spec fn after(self, reply: WriteReply<Seq<char>>, nonce: u64) -> Step<
        AtomicModel,
        (),
        Seq<char>,
    > {
        match self {
            AtomicWrite::Preparing(preparation) => AtomicWrite::prepared(
                preparation.target,
                preparation.after(reply, nonce),
            ),
            AtomicWrite::Committing { target, temp } => match failure(reply) {
                None => Step::Found(()),
                Some(error) => Step::Continue(
                    AtomicWrite::Discarding {
                        target,
                        temp,
                        error: replace_error(temp, target, error),
                    },
                ),
            },
            AtomicWrite::Discarding { error, .. } => Step::Refused(error),
        }
    }
}

/// Starts to replace the target with a temporary file whose first name `nonce` gives.
pub fn atomic_write_file_with(target: &PosixPath, sets_permissions: bool, nonce: u64) -> (step:
    Step<AtomicWrite<PosixPath, String>, (), String>)
    ensures
        step.deep_view() == AtomicWrite::start(target@, sets_permissions, nonce),
{
    match write_temp_file_with(target, sets_permissions, nonce) {
        Step::Continue(preparation) => Step::Continue(AtomicWrite::Preparing(preparation)),
        Step::Found(temp) => Step::Continue(
            AtomicWrite::Committing { target: target.clone(), temp },
        ),
        Step::Refused(error) => Step::Refused(error),
    }
}

/// Starts to atomically write data to a file, by first writing to a temporary file and
/// then renaming it into place.
pub fn atomic_write_file(target: &PosixPath, sets_permissions: bool) -> (step: Step<
    AtomicWrite<PosixPath, String>,
    (),
    String,
>)
    ensures
        exists|nonce: u64|
            step.deep_view() == #[trigger] AtomicWrite::start(target@, sets_permissions, nonce),
{
    let nonce: u64 = random_nonce();
    atomic_write_file_with(target, sets_permissions, nonce)
}

impl AtomicWrite<PosixPath, String> {
    /// What the replacement asks for.
    pub fn request(&self) -> (request: WriteRequest<PosixPath>)
        ensures
            request.deep_view() == self.deep_view().asks(),
    {
        match self {
            AtomicWrite::Preparing(preparation) => preparation.request(),
            AtomicWrite::Committing { target, temp } => WriteRequest::Rename {
                from: temp.clone(),
                to: target.clone(),
            },
            AtomicWrite::Discarding { temp, .. } => WriteRequest::Remove(temp.clone()),
        }
    }

    /// Takes the answer to what the replacement asked for. Where another name is to be
    /// tried, `nonce` gives it.
    pub fn reply_with(self, reply: WriteReply<String>, nonce: u64) -> (step: Step<
        AtomicWrite<PosixPath, String>,
        (),
        String,
    >)
        ensures
            step.deep_view() == self.deep_view().after(reply.deep_view(), nonce),
    {
        match self {
            AtomicWrite::Preparing(preparation) => {
                let target = preparation.target.clone();
                match preparation.reply_with(reply, nonce) {
                    Step::Continue(preparation) => Step::Continue(
                        AtomicWrite::Preparing(preparation),
                    ),
                    Step::Found(temp) => Step::Continue(AtomicWrite::Committing { target, temp }),
                    Step::Refused(error) => Step::Refused(error),
                }
            },
            AtomicWrite::Committing { target, temp } => {
                let renamed: Result<(), String> = match failure_text(reply) {
                    None => Ok(()),
                    Some(error) => Err(error),
                };
                match commit_atomic_replace(&temp, &target, renamed) {
                    Ok(()) => Step::Found(()),
                    Err(error) => Step::Continue(AtomicWrite::Discarding { target, temp, error }),
                }
            },
            AtomicWrite::Discarding { error, .. } => Step::Refused(error),
        }
    }

    /// Takes the answer to what the replacement asked for.
    pub fn reply(self, reply: WriteReply<String>) -> (step: Step<
        AtomicWrite<PosixPath, String>,
        (),
        String,
    >)
        ensures
            exists|nonce: u64|
                step.deep_view() == #[trigger] self.deep_view().after(reply.deep_view(), nonce),
    {
        let nonce: u64 = match &reply {
            WriteReply::AlreadyExists => random_nonce(),
            _ => 0,
        };
        self.reply_with(reply, nonce)
    }
}

} // verus!
