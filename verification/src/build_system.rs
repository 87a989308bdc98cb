//! The build runner: what is run to bundle a plugin, and what it reports.

use crate::text::{contains, contains_text, join2, join3, owned};
use vstd::prelude::*;

verus! {

/// What a running build reports.
#[derive(Debug, Clone, PartialEq, Eq)]
pub enum BuildMessage {
    Stdout(String),
    Stderr(String),
    Finished { success: bool },
}

/// How the last build went.
#[derive(Debug, Clone, Copy, PartialEq, Eq, Structural)]
pub enum BuildStatus {
    Idle,
    Building,
    Success,
    Failed,
}

/// A line of build output.
#[derive(Debug, Clone, PartialEq, Eq)]
pub struct BuildOutputLine {
    pub text: String,
    pub is_error: bool,
}

/// Whether a line that a tool writes to its error stream speaks of an error.
pub open spec fn speaks_of_error(line: Seq<char>) -> bool {
    contains_text(line, "error"@) || contains_text(line, "Error"@) || contains_text(
        line,
        "cannot find"@,
    )
}

/// Whether a line of output is the one that a message becomes.
pub open spec fn is_line_for(line: BuildOutputLine, message: BuildMessage) -> bool {
    match message {
        BuildMessage::Stdout(text) => line.text@ == text@ && !line.is_error,
        BuildMessage::Stderr(text) => line.text@ == text@ && line.is_error == speaks_of_error(
            text@,
        ),
        BuildMessage::Finished { success } => {
            &&& line.text@ == (if success {
                "✓ Bundle succeeded"@
            } else {
                "✗ Bundle failed"@
            })
            &&& line.is_error == !success
        },
    }
}

/// The line of output that a message becomes.
fn line_for(message: &BuildMessage) -> (r: BuildOutputLine)
    ensures
        is_line_for(r, *message),
{
    match message {
        BuildMessage::Stdout(text) => BuildOutputLine {
            text: owned(text.as_str()),
            is_error: false,
        },
        BuildMessage::Stderr(text) => {
            let is_error: bool = contains(text.as_str(), "error") || contains(
                text.as_str(),
                "Error",
            ) || contains(text.as_str(), "cannot find");
            BuildOutputLine { text: owned(text.as_str()), is_error }
        },
        BuildMessage::Finished { success } => BuildOutputLine {
            text: if *success {
                owned("✓ Bundle succeeded")
            } else {
                owned("✗ Bundle failed")
            },
            is_error: !*success,
        },
    }
}

/// The status after one message.
pub open spec fn next_status(status: BuildStatus, message: BuildMessage) -> BuildStatus {
    match message {
        BuildMessage::Finished { success } => if success {
            BuildStatus::Success
        } else {
            BuildStatus::Failed
        },
        _ => status,
    }
}

/// The status after several messages.
pub open spec fn status_after(status: BuildStatus, messages: Seq<BuildMessage>) -> BuildStatus
    decreases messages.len(),
{
    if messages.len() == 0 {
        status
    } else {
        next_status(status_after(status, messages.drop_last()), messages.last())
    }
}

/// Whether a message says that the build succeeded.
pub open spec fn is_success(message: BuildMessage) -> bool {
    message matches BuildMessage::Finished { success } && success
}

/// Whether any of several messages says that the build succeeded.
pub open spec fn any_success(messages: Seq<BuildMessage>) -> bool {
    exists|i: int| 0 <= i < messages.len() && is_success(#[trigger] messages[i])
}

/// A build goes on until it says that it has finished, and then has succeeded
/// or failed as it said last.
pub proof fn law_building_until_finished(messages: Seq<BuildMessage>)
    ensures
        status_after(BuildStatus::Building, messages) == BuildStatus::Building <==> forall|i: int|
            0 <= i < messages.len() ==> !(#[trigger] messages[i] is Finished),
        messages.len() > 0 && messages.last() is Finished ==> status_after(
            BuildStatus::Building,
            messages,
        ) == (if is_success(messages.last()) {
            BuildStatus::Success
        } else {
            BuildStatus::Failed
        }),
    decreases messages.len(),
{
    if messages.len() > 0 {
        let earlier = messages.drop_last();
        law_building_until_finished(earlier);
        assert forall|i: int| 0 <= i < earlier.len() implies earlier[i] == #[trigger] messages[i] by {}
        if forall|i: int| 0 <= i < earlier.len() ==> !(#[trigger] earlier[i] is Finished) {
            if !(messages.last() is Finished) {
                assert forall|i: int| 0 <= i < messages.len() implies !(
                #[trigger] messages[i] is Finished) by {
                    if i < earlier.len() {
                        assert(!(earlier[i] is Finished));
                    }
                }
            } else {
                assert(messages[messages.len() - 1] is Finished);
            }
        } else {
            let i = choose|i: int| 0 <= i < earlier.len() && (#[trigger] earlier[i] is Finished);
            assert(messages[i] is Finished);
        }
    }
}

// ── The channel from the build ──────────────────────────────────────────────

/// The sending end of a `std::sync::mpsc` channel.
#[verifier::external_type_specification]
#[verifier::external_body]
#[verifier::reject_recursive_types(T)]
pub struct ExBuildSender<T>(std::sync::mpsc::Sender<T>);

/// The receiving end of a `std::sync::mpsc` channel.
#[verifier::external_type_specification]
#[verifier::external_body]
#[verifier::reject_recursive_types(T)]
pub struct ExBuildReceiver<T>(std::sync::mpsc::Receiver<T>);

/// Whether what goes in at this sending end comes out at this receiving end.
pub uninterp spec fn reports_to(
    sender: std::sync::mpsc::Sender<BuildMessage>,
    receiver: std::sync::mpsc::Receiver<BuildMessage>,
) -> bool;

/// All messages that this end has received so far, oldest first.
pub uninterp spec fn came_in(
    receiver: std::sync::mpsc::Receiver<BuildMessage>,
) -> Seq<BuildMessage>;

/// The messages that were left on the channel when this end last looked.
pub uninterp spec fn left_unread(
    receiver: std::sync::mpsc::Receiver<BuildMessage>,
) -> Seq<BuildMessage>;

/// `std::sync::mpsc::channel`: the two ends of one new channel, through which
/// nothing has gone yet.
#[verifier::external_body]
fn new_channel() -> (r: (
    std::sync::mpsc::Sender<BuildMessage>,
    std::sync::mpsc::Receiver<BuildMessage>,
))
    ensures
        reports_to(r.0, r.1),
        came_in(r.1) == Seq::<BuildMessage>::empty(),
        left_unread(r.1) == Seq::<BuildMessage>::empty(),
{
    std::sync::mpsc::channel()
}

/// `std::sync::mpsc::Receiver::try_recv`: receives the next message, and gives
/// none only where it finds the channel empty. Which message it is, and
/// whether there is one, rests on what other threads have sent; nothing is
/// claimed of that. The end stays on its channel.
#[verifier::external_body]
fn next_message(receiver: &mut std::sync::mpsc::Receiver<BuildMessage>) -> (r: Option<
    BuildMessage,
>)
    ensures
        match r {
            Some(message) => came_in(*final(receiver)) == came_in(*old(receiver)).push(message),
            None => {
                &&& came_in(*final(receiver)) == came_in(*old(receiver))
                &&& left_unread(*final(receiver)) == Seq::<BuildMessage>::empty()
            },
        },
        forall|sender: std::sync::mpsc::Sender<BuildMessage>| #[trigger]
            reports_to(sender, *final(receiver)) == reports_to(sender, *old(receiver)),
{
    receiver.try_recv().ok()
}

// ── The build ───────────────────────────────────────────────────────────────

/// The build of the open project.
pub struct BuildSystem {
    pub status: BuildStatus,
    pub output_lines: Vec<BuildOutputLine>,
    pub receiver: Option<std::sync::mpsc::Receiver<BuildMessage>>,
    /// The project that is built, or was last.
    pub project_path: String,
    /// The project that was built, once its build has succeeded; taken to
    /// trigger a reload.
    pub artifact_ready: Option<String>,
}

impl BuildSystem {
    /// Nothing was built yet.
    pub fn new() -> (r: Self)
        ensures
            r.status == BuildStatus::Idle,
            r.output_lines@.len() == 0,
            r.receiver is None,
            r.project_path@ == ""@,
            r.artifact_ready is None,
    {
        BuildSystem {
            status: BuildStatus::Idle,
            output_lines: Vec::new(),
            receiver: None,
            project_path: owned(""),
            artifact_ready: None,
        }
    }

    /// Starts a build. Returns the end of the channel that the build reports
    /// on; while a build runs, nothing happens and there is none.
    pub fn start_build(&mut self, project_path: &str) -> (r: Option<
        std::sync::mpsc::Sender<BuildMessage>,
    >)
        ensures
            if old(self).status == BuildStatus::Building {
                r is None && *final(self) == *old(self)
            } else {
                &&& r is Some
                &&& final(self).status == BuildStatus::Building
                &&& final(self).receiver matches Some(receiver)
                &&& reports_to(r->0, receiver)
                &&& came_in(receiver) == Seq::<BuildMessage>::empty()
                &&& left_unread(receiver) == Seq::<BuildMessage>::empty()
                &&& final(self).project_path@ == project_path@
                &&& final(self).artifact_ready is None
                &&& final(self).output_lines@.len() == 1
                &&& final(self).output_lines@[0].text@ == "Bundling plugin at "@ + project_path@
                    + "..."@
                &&& !final(self).output_lines@[0].is_error
            },
    {
        if self.status == BuildStatus::Building {
            return None;
        }
        self.status = BuildStatus::Building;
        self.output_lines = Vec::new();
        self.artifact_ready = None;
        self.output_lines.push(
            BuildOutputLine {
                text: join3("Bundling plugin at ", project_path, "..."),
                is_error: false,
            },
        );
        let (tx, rx) = new_channel();
        self.receiver = Some(rx);
        self.project_path = owned(project_path);
        Some(tx)
    }

    /// What a build is after it has reported several messages: a line of
    /// output more for each, the status that they leave, and an artifact once
    /// one of them says so.
    pub open spec fn reported(
        before: BuildSystem,
        messages: Seq<BuildMessage>,
        after: BuildSystem,
    ) -> bool {
        let n = before.output_lines@.len() as int;
        &&& after.output_lines@.len() == n + messages.len()
        &&& after.output_lines@.take(n) == before.output_lines@
        &&& forall|i: int|
            0 <= i < messages.len() ==> is_line_for(
                #[trigger] after.output_lines@[n + i],
                messages[i],
            )
        &&& after.status == status_after(before.status, messages)
        &&& after.project_path == before.project_path
        &&& if any_success(messages) {
            after.artifact_ready matches Some(p) && p@ == before.project_path@
        } else {
            after.artifact_ready == before.artifact_ready
        }
    }

    /// Takes over one message of the build.
    pub fn handle_message(&mut self, message: &BuildMessage)
        ensures
            Self::reported(*old(self), seq![*message], *final(self)),
            final(self).receiver == old(self).receiver,
    {
        let line: BuildOutputLine = line_for(message);
        self.output_lines.push(line);
        proof {
            reveal_with_fuel(status_after, 2);
            let one = seq![*message];
            assert(one.drop_last() =~= Seq::empty());
            assert(one[0] == *message);
            assert(self.output_lines@.take(old(self).output_lines@.len() as int)
                =~= old(self).output_lines@);
        }
        match message {
            BuildMessage::Finished { success } => {
                if *success {
                    self.status = BuildStatus::Success;
                    self.artifact_ready = Some(self.project_path.clone());
                } else {
                    self.status = BuildStatus::Failed;
                }
            },
            _ => {},
        }
    }

    /// What a build is after it has been looked at, where it reports on a
    /// channel: everything that came in since is taken over, until the channel
    /// was found empty. `looked` is the channel's end after that, which is let
    /// go of once the build has finished.
    pub open spec fn caught_up(
        before: BuildSystem,
        looked: std::sync::mpsc::Receiver<BuildMessage>,
        after: BuildSystem,
    ) -> bool {
        &&& before.receiver matches Some(receiver)
        &&& came_in(receiver).is_prefix_of(came_in(looked))
        &&& left_unread(looked) == Seq::<BuildMessage>::empty()
        &&& forall|sender: std::sync::mpsc::Sender<BuildMessage>| #[trigger]
            reports_to(sender, looked) == reports_to(sender, receiver)
        &&& Self::reported(before, came_in(looked).skip(came_in(receiver).len() as int), after)
        &&& after.receiver == (if after.status == BuildStatus::Success || after.status
            == BuildStatus::Failed {
            None
        } else {
            Some(looked)
        })
    }

    /// Takes over all that the build has reported since the last call, until
    /// there is nothing left. Once it has finished, the channel is let go of.
    pub fn poll(&mut self)
        ensures
            match old(self).receiver {
                Some(_) => exists|looked: std::sync::mpsc::Receiver<BuildMessage>| #[trigger]
                    Self::caught_up(*old(self), looked, *final(self)),
                None => {
                    &&& Self::reported(*old(self), Seq::empty(), *final(self))
                    &&& final(self).receiver is None
                },
            },
    {
        let ghost mut messages = Seq::<BuildMessage>::empty();
        assert(self.output_lines@.take(self.output_lines@.len() as int) =~= self.output_lines@);
        assert(Self::reported(*old(self), messages, *self));
        match self.receiver.take() {
            Some(held) => {
                let mut receiver: std::sync::mpsc::Receiver<BuildMessage> = held;
                let ghost start = came_in(held);
                assert(start + messages =~= start);
                loop
                    invariant
                        Self::reported(*old(self), messages, *self),
                        came_in(receiver) == start + messages,
                        forall|sender: std::sync::mpsc::Sender<BuildMessage>| #[trigger]
                            reports_to(sender, receiver) == reports_to(sender, held),
                    ensures
                        Self::reported(*old(self), messages, *self),
                        came_in(receiver) == start + messages,
                        left_unread(receiver) == Seq::<BuildMessage>::empty(),
                        forall|sender: std::sync::mpsc::Sender<BuildMessage>| #[trigger]
                            reports_to(sender, receiver) == reports_to(sender, held),
                    decreases usize::MAX - self.output_lines.len(),
                {
                    match next_message(&mut receiver) {
                        Some(message) => {
                            let ghost before = *self;
                            self.handle_message(&message);
                            proof {
                                lemma_reported_one_more(*old(self), messages, before, message, *self);
                                assert((start + messages).push(message) =~= start + messages.push(
                                    message,
                                ));
                                messages = messages.push(message);
                            }
                        },
                        None => {
                            break;
                        },
                    }
                }
                let ghost looked = receiver;
                assert(came_in(looked).skip(start.len() as int) =~= messages);
                let finished: bool = self.status == BuildStatus::Success || self.status
                    == BuildStatus::Failed;
                if !finished {
                    self.receiver = Some(receiver);
                } else {
                    self.receiver = None;
                }
                assert(Self::caught_up(*old(self), looked, *self));
            },
            None => {},
        }
    }

    /// Takes the project that is ready to be reloaded, if there is one.
    pub fn take_artifact(&mut self) -> (r: Option<String>)
        ensures
            r == old(self).artifact_ready,
            *final(self) == (BuildSystem { artifact_ready: None, ..*old(self) }),
    {
        self.artifact_ready.take()
    }
}

/// Looking again when nothing has come in since changes nothing.
pub proof fn law_quiet_poll_changes_nothing(
    first: BuildSystem,
    looked: std::sync::mpsc::Receiver<BuildMessage>,
    second: BuildSystem,
    again: std::sync::mpsc::Receiver<BuildMessage>,
    third: BuildSystem,
)
    requires
        BuildSystem::caught_up(first, looked, second),
        match second.receiver {
            Some(_) => {
                &&& BuildSystem::caught_up(second, again, third)
                &&& came_in(again) == came_in(looked)
            },
            None => {
                &&& BuildSystem::reported(second, Seq::empty(), third)
                &&& third.receiver is None
            },
        },
    ensures
        third.status == second.status,
        third.output_lines@ == second.output_lines@,
        third.receiver is Some <==> second.receiver is Some,
        third.artifact_ready == second.artifact_ready,
        third.project_path == second.project_path,
{
    let none = Seq::<BuildMessage>::empty();
    assert(came_in(again).skip(came_in(again).len() as int) =~= none);
    assert(BuildSystem::reported(second, none, third));
    assert(third.output_lines@.take(second.output_lines@.len() as int) =~= third.output_lines@);
}

proof fn lemma_reported_one_more(
    start: BuildSystem,
    messages: Seq<BuildMessage>,
    before: BuildSystem,
    message: BuildMessage,
    after: BuildSystem,
)
    requires
        BuildSystem::reported(start, messages, before),
        BuildSystem::reported(before, seq![message], after),
    ensures
        BuildSystem::reported(start, messages.push(message), after),
{
    reveal_with_fuel(status_after, 2);
    let all = messages.push(message);
    let one = seq![message];
    let n = start.output_lines@.len() as int;
    let m = before.output_lines@.len() as int;
    assert(one.drop_last() =~= Seq::empty());
    assert(all.drop_last() =~= messages);
    assert(after.output_lines@.take(n) =~= start.output_lines@) by {
        assert forall|i: int| 0 <= i < n implies after.output_lines@[i]
            == start.output_lines@[i] by {
            assert(after.output_lines@.take(m)[i] == before.output_lines@[i]);
            assert(before.output_lines@.take(n)[i] == start.output_lines@[i]);
        }
    }
    assert forall|i: int| 0 <= i < all.len() implies is_line_for(
        #[trigger] after.output_lines@[n + i],
        all[i],
    ) by {
        if i < messages.len() {
            assert(after.output_lines@.take(m)[n + i] == before.output_lines@[n + i]);
            assert(is_line_for(before.output_lines@[n + i], messages[i]));
        } else {
            assert(is_line_for(after.output_lines@[m + 0], one[0]));
        }
    }
    if is_success(message) {
        assert(is_success(all[messages.len() as int]));
        assert(is_success(one[0]));
    } else if any_success(messages) {
        let i = choose|i: int| 0 <= i < messages.len() && is_success(#[trigger] messages[i]);
        assert(is_success(all[i]));
    } else {
        assert forall|i: int| 0 <= i < all.len() implies !is_success(#[trigger] all[i]) by {
            if i < messages.len() {
                assert(!is_success(messages[i]));
            }
        }
    }
}

// ── The command ─────────────────────────────────────────────────────────────

/// The command that bundles a plugin.
#[derive(Debug, Clone, PartialEq, Eq)]
pub struct BundleCommand {
    pub program: String,
    pub args: Vec<String>,
    /// Where programs are looked for.
    pub path: String,
    /// The variables that the command must not see.
    pub env_removed: Vec<String>,
}

/// Where programs are looked for: the user's cargo programs first.
pub open spec fn search_path(home: Seq<char>, path: Seq<char>) -> Seq<char> {
    let cargo_bin = home + "/.cargo/bin"@;
    if path.len() == 0 {
        cargo_bin
    } else {
        cargo_bin + ":"@ + path
    }
}

/// The command that bundles a package, given the user's home directory and
/// search path, which are empty where they are not set.
pub fn bundle_command(package_name: &str, home: &str, path: &str) -> (r: BundleCommand)
    ensures
        r.program@ == "cargo"@,
        r.args@.map_values(|a: String| a@) == seq![
            "nih-plug"@,
            "bundle"@,
            package_name@,
            "--release"@,
        ],
        r.path@ == search_path(home@, path@),
        r.env_removed@.map_values(|a: String| a@) == seq![
            "CARGO_MANIFEST_DIR"@,
            "CARGO_PKG_NAME"@,
            "CARGO_PKG_VERSION"@,
            "CARGO_CRATE_NAME"@,
            "CARGO_PRIMARY_PACKAGE"@,
        ],
{
    let mut args: Vec<String> = Vec::new();
    args.push(owned("nih-plug"));
    args.push(owned("bundle"));
    args.push(owned(package_name));
    args.push(owned("--release"));
    let mut env_removed: Vec<String> = Vec::new();
    env_removed.push(owned("CARGO_MANIFEST_DIR"));
    env_removed.push(owned("CARGO_PKG_NAME"));
    env_removed.push(owned("CARGO_PKG_VERSION"));
    env_removed.push(owned("CARGO_CRATE_NAME"));
    env_removed.push(owned("CARGO_PRIMARY_PACKAGE"));
    let cargo_bin: String = join2(home, "/.cargo/bin");
    let searched: String = if is_empty_text(path) {
        cargo_bin
    } else {
        join3(cargo_bin.as_str(), ":", path)
    };
    let r = BundleCommand { program: owned("cargo"), args, path: searched, env_removed };
    assert(r.args@.map_values(|a: String| a@) =~= seq![
        "nih-plug"@,
        "bundle"@,
        package_name@,
        "--release"@,
    ]);
    assert(r.env_removed@.map_values(|a: String| a@) =~= seq![
        "CARGO_MANIFEST_DIR"@,
        "CARGO_PKG_NAME"@,
        "CARGO_PKG_VERSION"@,
        "CARGO_CRATE_NAME"@,
        "CARGO_PRIMARY_PACKAGE"@,
    ]);
    r
}

fn is_empty_text(s: &str) -> (r: bool)
    ensures
        r == (s@.len() == 0),
{
    crate::text::chars_of(s).len() == 0
}

/// What is reported before the command runs. `shown_path` is the project's
/// path in quotes.
pub fn announcements(package_name: &str, shown_path: &str) -> (r: Vec<BuildMessage>)
    ensures
        r@.len() == 2,
        r@[0] matches BuildMessage::Stdout(m) && m@ == "Running: cargo nih-plug bundle "@
            + package_name@ + " --release"@,
        r@[1] matches BuildMessage::Stdout(m) && m@ == "Run path: "@ + shown_path@ + " "@,
{
    let mut out: Vec<BuildMessage> = Vec::new();
    out.push(
        BuildMessage::Stdout(join3("Running: cargo nih-plug bundle ", package_name, " --release")),
    );
    out.push(BuildMessage::Stdout(join3("Run path: ", shown_path, " ")));
    out
}

/// How far running the command came.
#[derive(Debug, Clone, PartialEq, Eq)]
pub enum BundleOutcome {
    /// The package's name is not known.
    NoName(String),
    /// The command could not be started.
    NotSpawned(String),
    /// It was started, but could not be waited for.
    NotWaited(String),
    /// It ended, and said whether it succeeded.
    Exited { success: bool },
}

/// What running the command comes to.
pub fn bundle_result(outcome: &BundleOutcome) -> (r: Result<(), String>)
    ensures
        match *outcome {
            BundleOutcome::NoName(e) => r matches Err(m) && m@ == e@,
            BundleOutcome::NotSpawned(e) => r matches Err(m) && m@
                == "Failed to spawn 'cargo nih-plug bundle'. Is cargo-nih-plug installed? Error: "@
                + e@,
            BundleOutcome::NotWaited(e) => r matches Err(m) && m@ == "Failed to wait on cargo: "@
                + e@,
            BundleOutcome::Exited { success } => if success {
                r is Ok
            } else {
                r matches Err(m) && m@ == "Bundle failed"@
            },
        },
{
    match outcome {
        BundleOutcome::NoName(e) => Err(owned(e.as_str())),
        BundleOutcome::NotSpawned(e) => Err(
            join2(
                "Failed to spawn 'cargo nih-plug bundle'. Is cargo-nih-plug installed? Error: ",
                e.as_str(),
            ),
        ),
        BundleOutcome::NotWaited(e) => Err(join2("Failed to wait on cargo: ", e.as_str())),
        BundleOutcome::Exited { success } => if *success {
            Ok(())
        } else {
            Err(owned("Bundle failed"))
        },
    }
}

/// The last message of a build.
pub fn finished_message(outcome: &BundleOutcome) -> (r: BuildMessage)
    ensures
        r == (BuildMessage::Finished {
            success: (*outcome matches BundleOutcome::Exited { success } && success),
        }),
{
    BuildMessage::Finished { success: bundle_result(outcome).is_ok() }
}

// ── Laws of the build ───────────────────────────────────────────────────────

/// Every line of output is shown as it came. Lines of the error stream are
/// errors exactly where they speak of one; others are none. The end of the
/// build gets a line of its own.
pub proof fn law_output_is_shown_as_it_came(line: BuildOutputLine, text: String)
    ensures
        is_line_for(line, BuildMessage::Stdout(text)) ==> line.text@ == text@ && !line.is_error,
        is_line_for(line, BuildMessage::Stderr(text)) ==> line.text@ == text@ && (line.is_error
            <==> contains_text(text@, "error"@) || contains_text(text@, "Error"@)
            || contains_text(text@, "cannot find"@)),
        is_line_for(line, BuildMessage::Finished { success: true }) ==> line.text@
            == "✓ Bundle succeeded"@ && !line.is_error,
        is_line_for(line, BuildMessage::Finished { success: false }) ==> line.text@
            == "✗ Bundle failed"@ && line.is_error,
{
}

/// Taking over messages in two goes is the same as taking them over in one.
pub proof fn law_status_after_two_goes(
    status: BuildStatus,
    a: Seq<BuildMessage>,
    b: Seq<BuildMessage>,
)
    ensures
        status_after(status, a + b) == status_after(status_after(status, a), b),
    decreases b.len(),
{
    if b.len() == 0 {
        assert(a + b =~= a);
    } else {
        assert((a + b).drop_last() =~= a + b.drop_last());
        assert((a + b).last() == b.last());
        law_status_after_two_goes(status, a, b.drop_last());
    }
}

/// Output leaves the status as it is; only the end of the build changes it,
/// to what the build came to.
pub proof fn law_only_the_end_changes_the_status(status: BuildStatus, text: String)
    ensures
        status_after(status, Seq::<BuildMessage>::empty()) == status,
        status_after(status, seq![BuildMessage::Stdout(text)]) == status,
        status_after(status, seq![BuildMessage::Stderr(text)]) == status,
        status_after(status, seq![BuildMessage::Finished { success: true }])
            == BuildStatus::Success,
        status_after(status, seq![BuildMessage::Finished { success: false }])
            == BuildStatus::Failed,
{
    reveal_with_fuel(status_after, 2);
    assert(seq![BuildMessage::Stdout(text)].drop_last() =~= Seq::<BuildMessage>::empty());
    assert(seq![BuildMessage::Stderr(text)].drop_last() =~= Seq::<BuildMessage>::empty());
    assert(seq![BuildMessage::Finished { success: true }].drop_last() =~= Seq::<
        BuildMessage,
    >::empty());
    assert(seq![BuildMessage::Finished { success: false }].drop_last() =~= Seq::<
        BuildMessage,
    >::empty());
}

/// What a build reports is added behind its output, one line for each message
/// and in order; there is something to load from the moment it succeeds, and
/// not before.
pub proof fn law_reports_are_added_in_order(
    before: BuildSystem,
    messages: Seq<BuildMessage>,
    after: BuildSystem,
)
    requires
        BuildSystem::reported(before, messages, after),
    ensures
        after.output_lines@.len() == before.output_lines@.len() + messages.len(),
        forall|i: int|
            0 <= i < before.output_lines@.len() ==> #[trigger] after.output_lines@[i]
                == before.output_lines@[i],
        forall|i: int|
            0 <= i < messages.len() ==> is_line_for(
                #[trigger] after.output_lines@[before.output_lines@.len() + i],
                messages[i],
            ),
        after.status == status_after(before.status, messages),
        before.artifact_ready is None ==> (after.artifact_ready is Some <==> exists|i: int|
            0 <= i < messages.len() && #[trigger] messages[i] == (BuildMessage::Finished {
                success: true,
            })),
        after.project_path == before.project_path,
{
    let n = before.output_lines@.len() as int;
    assert forall|i: int| 0 <= i < n implies #[trigger] after.output_lines@[i]
        == before.output_lines@[i] by {
        assert(after.output_lines@.take(n)[i] == after.output_lines@[i]);
    }
    if any_success(messages) {
        let i = choose|i: int| 0 <= i < messages.len() && is_success(#[trigger] messages[i]);
        assert(messages[i] == (BuildMessage::Finished { success: true }));
    }
    if exists|i: int|
        0 <= i < messages.len() && #[trigger] messages[i] == (BuildMessage::Finished {
            success: true,
        }) {
        let i = choose|i: int|
            0 <= i < messages.len() && #[trigger] messages[i] == (BuildMessage::Finished {
                success: true,
            });
        assert(is_success(messages[i]));
    }
}

/// The user's cargo programs are looked for first, and then wherever else
/// programs were looked for.
pub proof fn law_cargo_is_looked_for_first(home: Seq<char>, path: Seq<char>)
    ensures
        search_path(home, Seq::<char>::empty()) == home + "/.cargo/bin"@,
        path.len() > 0 ==> search_path(home, path) == home + "/.cargo/bin"@ + ":"@ + path,
{
}

/// Nothing that came in is lost: each message that the channel gave since the
/// last look has a line, in order, and the channel is empty.
pub proof fn law_nothing_that_came_in_is_lost(
    before: BuildSystem,
    looked: std::sync::mpsc::Receiver<BuildMessage>,
    after: BuildSystem,
)
    requires
        BuildSystem::caught_up(before, looked, after),
    ensures
        before.receiver matches Some(receiver) ==> {
            let n = came_in(receiver).len() as int;
            let m = before.output_lines@.len() as int;
            &&& after.output_lines@.len() == m + came_in(looked).len() - n
            &&& forall|i: int|
                n <= i < came_in(looked).len() ==> is_line_for(
                    after.output_lines@[m + (i - n)],
                    #[trigger] came_in(looked)[i],
                )
            &&& left_unread(looked).len() == 0
            &&& after.receiver is Some ==> after.receiver == Some(looked)
            &&& after.receiver is None <==> after.status == BuildStatus::Success || after.status
                == BuildStatus::Failed
        },
{
    let n = came_in(before.receiver->0).len() as int;
    let m = before.output_lines@.len() as int;
    let messages = came_in(looked).skip(n);
    assert forall|i: int| n <= i < came_in(looked).len() implies is_line_for(
        after.output_lines@[m + (i - n)],
        #[trigger] came_in(looked)[i],
    ) by {
        assert(messages[i - n] == came_in(looked)[i]);
        assert(is_line_for(after.output_lines@[m + (i - n)], messages[i - n]));
    }
}

} // verus!
