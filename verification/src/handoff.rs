//! The restart helper: how a daemon hands over to it, and how it brings up the successor.
use crate::lifecycle::RestartRecord;
use crate::text;
use crate::text::{as_utf8, debug_text, decimal_text, join2, join3, join4, join5, same};
use vstd::prelude::*;

verus! {

/// The helper waits for the daemon's word.
pub const RESTART_HANDOFF_WAITING: &'static str = "WAITING";

/// The daemon has armed the restart.
pub const RESTART_HANDOFF_COMMIT: &'static str = "COMMIT";

/// The helper has taken over.
pub const RESTART_HANDOFF_ACTIVE: &'static str = "ACTIVE";

/// The daemon gives the restart up.
pub const RESTART_HANDOFF_ABORT: &'static str = "ABORT";

/// How many bytes a signal may have.
pub const RESTART_HANDOFF_MAX_FRAME: usize = 32;

/// A signal as it is sent: its text and the end of a line.
pub fn restart_handoff_frame(signal: &str) -> (frame: Vec<u8>)
    ensures
        frame@ == text::utf8(signal@).push(10u8),
{
    let mut frame: Vec<u8> = Vec::new();
    frame.extend_from_slice(signal.as_bytes());
    assert(frame@ =~= text::utf8(signal@));
    frame.push(10);
    frame
}

/// What became of the bytes that were read so far.
#[derive(Clone, PartialEq, Eq, Debug)]
pub enum HandoffRead {
    /// The signal is not complete.
    More,
    /// The channel was closed between signals.
    Closed,
    Signal(String),
    Failed(String),
}

/// A signal that is being read.
#[derive(Clone, PartialEq, Eq, Debug)]
pub struct HandoffReader {
    pub frame: Vec<u8>,
}

impl HandoffReader {
    /// Nothing is read yet.
    pub fn new() -> (reader: Self)
        ensures
            reader.frame@ == Seq::<u8>::empty(),
    {
        HandoffReader { frame: Vec::new() }
    }

    /// The channel was closed.
    pub fn closed(&self) -> (read: HandoffRead)
        ensures
            if self.frame@.len() == 0 {
                read == HandoffRead::Closed
            } else {
                read matches HandoffRead::Failed(message) && message@
                    == "restart handoff closed with a partial frame"@
            },
    {
        if self.frame.len() == 0 {
            HandoffRead::Closed
        } else {
            HandoffRead::Failed("restart handoff closed with a partial frame".to_owned())
        }
    }

    /// Takes in one byte.
    pub fn take(&mut self, byte: u8) -> (read: HandoffRead)
        ensures
            if byte == 10 {
                &&& final(self).frame@ == old(self).frame@
                &&& match text::decoded(old(self).frame@) {
                    Some(signal) => read matches HandoffRead::Signal(found) && found@ == signal,
                    None => read matches HandoffRead::Failed(message) && message@
                        == "restart handoff signal is not UTF-8"@,
                }
            } else if old(self).frame@.len() < RESTART_HANDOFF_MAX_FRAME {
                &&& final(self).frame@ == old(self).frame@.push(byte)
                &&& read == HandoffRead::More
            } else {
                &&& final(self).frame@ == old(self).frame@
                &&& read matches HandoffRead::Failed(message) && message@
                    == "restart handoff signal exceeds "@ + text::decimal(
                    RESTART_HANDOFF_MAX_FRAME as nat,
                ) + " bytes"@
            },
    {
        if byte == 10 {
            return match as_utf8(self.frame.as_slice()) {
                Some(signal) => HandoffRead::Signal(signal.to_owned()),
                None => HandoffRead::Failed("restart handoff signal is not UTF-8".to_owned()),
            };
        }
        if self.frame.len() >= RESTART_HANDOFF_MAX_FRAME {
            let most = decimal_text(RESTART_HANDOFF_MAX_FRAME as u64);
            return HandoffRead::Failed(
                join3("restart handoff signal exceeds ", most.as_str(), " bytes"),
            );
        }
        self.frame.push(byte);
        HandoffRead::More
    }
}

/// What reading a signal gives, as values.
pub enum ReadView {
    More,
    Closed,
    Signal(Seq<char>),
    Failed(Seq<char>),
}

impl View for HandoffRead {
    type V = ReadView;

    open spec fn view(&self) -> ReadView {
        match self {
            HandoffRead::More => ReadView::More,
            HandoffRead::Closed => ReadView::Closed,
            HandoffRead::Signal(signal) => ReadView::Signal(signal@),
            HandoffRead::Failed(message) => ReadView::Failed(message@),
        }
    }
}

/// What is read from a channel that gives these bytes and then closes, when the first `i` are
/// already read and part of the signal.
pub open spec fn read_from(bytes: Seq<u8>, i: int) -> ReadView
    decreases bytes.len() - i,
{
    if i < 0 || i >= bytes.len() {
        if i == 0 {
            ReadView::Closed
        } else {
            ReadView::Failed("restart handoff closed with a partial frame"@)
        }
    } else if bytes[i] == 10 {
        match text::decoded(bytes.take(i)) {
            Some(signal) => ReadView::Signal(signal),
            None => ReadView::Failed("restart handoff signal is not UTF-8"@),
        }
    } else if i < RESTART_HANDOFF_MAX_FRAME {
        read_from(bytes, i + 1)
    } else {
        ReadView::Failed(
            "restart handoff signal exceeds "@ + text::decimal(RESTART_HANDOFF_MAX_FRAME as nat)
                + " bytes"@,
        )
    }
}

/// Reads a signal from a channel that gives these bytes and then closes.
pub fn read_restart_handoff_signal(bytes: &[u8]) -> (read: HandoffRead)
    ensures
        read@ == read_from(bytes@, 0),
{
    let mut reader = HandoffReader::new();
    let mut i: usize = 0;
    assert(bytes@.take(0) =~= Seq::<u8>::empty());
    while i < bytes.len()
        invariant
            i <= bytes@.len(),
            reader.frame@ == bytes@.take(i as int),
            read_from(bytes@, 0) == read_from(bytes@, i as int),
        decreases bytes.len() - i,
    {
        let read = reader.take(bytes[i]);
        assert(bytes@.take(i + 1) =~= bytes@.take(i as int).push(bytes@[i as int]));
        match read {
            HandoffRead::More => {},
            _ => {
                return read;
            },
        }
        i = i + 1;
    }
    reader.closed()
}

proof fn lemma_read_from(sent: Seq<u8>, i: int)
    requires
        0 <= i <= sent.len() <= RESTART_HANDOFF_MAX_FRAME,
        !sent.contains(10u8),
    ensures
        read_from(sent.push(10u8), i) == read_from(sent.push(10u8), sent.len() as int),
    decreases sent.len() - i,
{
    if i < sent.len() {
        assert(sent.contains(sent[i]));
        assert(sent.push(10u8)[i] == sent[i]);
        lemma_read_from(sent, i + 1);
    }
}

/// A signal that is sent is read as it was, if it is not too long and holds no end of a line.
pub proof fn sent_signal_is_read(signal: Seq<char>)
    requires
        text::utf8(signal).len() <= RESTART_HANDOFF_MAX_FRAME,
        !text::utf8(signal).contains(10u8),
    ensures
        read_from(text::utf8(signal).push(10u8), 0) == ReadView::Signal(signal),
{
    let sent = text::utf8(signal);
    lemma_read_from(sent, 0);
    assert(sent.push(10u8).take(sent.len() as int) =~= sent);
    text::lemma_decoded(signal);
}

/// Checks the signal that came against the one that has to come. There is none where the channel
/// was closed.
pub fn expect_signal(signal: Option<&str>, expected: &str) -> (result: Result<(), String>)
    ensures
        match signal {
            None => result matches Err(message) && message@
                == "restart successor closed its handoff channel"@,
            Some(found) => match result {
                Ok(()) => found@ == expected@,
                Err(message) => found@ != expected@ && message@ == "restart successor sent "@
                    + text::debug_of(found@) + ", expected "@ + text::debug_of(expected@),
            },
        },
{
    match signal {
        None => Err("restart successor closed its handoff channel".to_owned()),
        Some(found) => {
            if same(found, expected) {
                return Ok(());
            }
            let came = debug_text(found);
            let wanted = debug_text(expected);
            Err(join4("restart successor sent ", came.as_str(), ", expected ", wanted.as_str()))
        },
    }
}

/// Whether the helper may go on, as the daemon's word says.
#[derive(Clone, PartialEq, Eq, Debug)]
pub enum HandoffAuthority {
    /// It may if the restart is armed exactly for it.
    IfArmed,
    /// It may not.
    Denied,
    Invalid { message: String },
}

/// Whether the helper may go on, by the daemon's word. There is none where the daemon is gone: then
/// the armed restart alone speaks for the helper.
pub fn handoff_authority(parent_signal: Option<&str>) -> (authority: HandoffAuthority)
    ensures
        match parent_signal {
            None => authority == HandoffAuthority::IfArmed,
            Some(signal) => if signal@ == RESTART_HANDOFF_COMMIT@ {
                authority == HandoffAuthority::IfArmed
            } else if signal@ == RESTART_HANDOFF_ABORT@ {
                authority == HandoffAuthority::Denied
            } else {
                authority matches HandoffAuthority::Invalid { message } && message@
                    == "invalid restart handoff command "@ + text::debug_of(signal@)
            },
        },
{
    match parent_signal {
        None => HandoffAuthority::IfArmed,
        Some(signal) => {
            if same(signal, RESTART_HANDOFF_COMMIT) {
                HandoffAuthority::IfArmed
            } else if same(signal, RESTART_HANDOFF_ABORT) {
                HandoffAuthority::Denied
            } else {
                let shown = debug_text(signal);
                HandoffAuthority::Invalid {
                    message: join2("invalid restart handoff command ", shown.as_str()),
                }
            }
        },
    }
}

/// What the helper does next in its handoff.
#[derive(PartialEq, Eq, Debug)]
pub enum HandoffStep {
    /// Tell the daemon that the helper waits.
    SendWaiting,
    /// Read the daemon's word.
    ReadWord,
    /// Look whether the restart is armed exactly for the helper.
    CheckArmed,
    /// Tell the daemon that the helper has taken over.
    SendActive,
    /// Look again whether the restart is armed, since the daemon could not be told.
    CheckStillArmed,
    /// The handoff is over, with whether the helper takes over.
    Done(Result<bool, String>),
}

/// What came of a step.
#[derive(Clone, PartialEq, Eq, Debug)]
pub enum HandoffEvent {
    Sent,
    NotSent,
    /// The daemon's word, or that the daemon is gone.
    Word(Option<String>),
    Armed(bool),
    /// The step could not be done.
    Failed(String),
}

/// A step, with the message that it carries.
pub enum HandoffStepView {
    SendWaiting,
    ReadWord,
    CheckArmed,
    SendActive,
    CheckStillArmed,
    Done(Result<bool, Seq<char>>),
}

impl View for HandoffStep {
    type V = HandoffStepView;

    open spec fn view(&self) -> HandoffStepView {
        match self {
            HandoffStep::SendWaiting => HandoffStepView::SendWaiting,
            HandoffStep::ReadWord => HandoffStepView::ReadWord,
            HandoffStep::CheckArmed => HandoffStepView::CheckArmed,
            HandoffStep::SendActive => HandoffStepView::SendActive,
            HandoffStep::CheckStillArmed => HandoffStepView::CheckStillArmed,
            HandoffStep::Done(Ok(taken)) => HandoffStepView::Done(Ok(*taken)),
            HandoffStep::Done(Err(message)) => HandoffStepView::Done(Err(message@)),
        }
    }
}

/// What came of a step, with the text that it carries.
pub enum HandoffEventView {
    Sent,
    NotSent,
    Word(Option<Seq<char>>),
    Armed(bool),
    Failed(Seq<char>),
}

impl View for HandoffEvent {
    type V = HandoffEventView;

    open spec fn view(&self) -> HandoffEventView {
        match self {
            HandoffEvent::Sent => HandoffEventView::Sent,
            HandoffEvent::NotSent => HandoffEventView::NotSent,
            HandoffEvent::Word(Some(word)) => HandoffEventView::Word(Some(word@)),
            HandoffEvent::Word(None) => HandoffEventView::Word(None),
            HandoffEvent::Armed(armed) => HandoffEventView::Armed(*armed),
            HandoffEvent::Failed(error) => HandoffEventView::Failed(error@),
        }
    }
}

impl HandoffStep {
    /// The signal that a step sends.
    pub fn signal(&self) -> (signal: Option<&'static str>)
        ensures
            signal == match *self {
                HandoffStep::SendWaiting => Some(RESTART_HANDOFF_WAITING),
                HandoffStep::SendActive => Some(RESTART_HANDOFF_ACTIVE),
                _ => None,
            },
    {
        match self {
            HandoffStep::SendWaiting => Some(RESTART_HANDOFF_WAITING),
            HandoffStep::SendActive => Some(RESTART_HANDOFF_ACTIVE),
            _ => None,
        }
    }
}

/// Whether the daemon's word lets the helper go on. No word does; a word that is none is a fault.
pub open spec fn handoff_verdict(word: Option<Seq<char>>) -> Option<bool> {
    match word {
        None => Some(true),
        Some(signal) => if signal == RESTART_HANDOFF_COMMIT@ {
            Some(true)
        } else if signal == RESTART_HANDOFF_ABORT@ {
            Some(false)
        } else {
            None
        },
    }
}

/// The step that follows. An event that does not answer the step changes nothing.
///
/// The helper announces itself before it reads the daemon's word. A word that lets it go on lets it
/// only while the restart is armed exactly for it. Its answer may be lost while the restart is armed:
/// then the daemon is gone, and the record still speaks for the helper.
pub open spec fn next_handoff_step(
    step: HandoffStepView,
    event: HandoffEventView,
) -> HandoffStepView {
    match (step, event) {
        (HandoffStepView::SendWaiting, HandoffEventView::Sent) => HandoffStepView::ReadWord,
        (HandoffStepView::SendWaiting, HandoffEventView::NotSent) => HandoffStepView::Done(
            Err("announce WAITING restart successor"@),
        ),
        (HandoffStepView::ReadWord, HandoffEventView::Word(word)) => match handoff_verdict(word) {
            Some(true) => HandoffStepView::CheckArmed,
            Some(false) => HandoffStepView::Done(Ok(false)),
            None => HandoffStepView::Done(
                Err("invalid restart handoff command "@ + text::debug_of(word->0)),
            ),
        },
        (HandoffStepView::CheckArmed, HandoffEventView::Armed(armed)) => if armed {
            HandoffStepView::SendActive
        } else {
            HandoffStepView::Done(Ok(false))
        },
        (HandoffStepView::SendActive, HandoffEventView::Sent) => HandoffStepView::Done(Ok(true)),
        (HandoffStepView::SendActive, HandoffEventView::NotSent) => {
            HandoffStepView::CheckStillArmed
        },
        (HandoffStepView::CheckStillArmed, HandoffEventView::Armed(armed)) => if armed {
            HandoffStepView::Done(Ok(true))
        } else {
            HandoffStepView::Done(Err("publish ACTIVE restart successor"@))
        },
        (HandoffStepView::ReadWord, HandoffEventView::Failed(error)) => HandoffStepView::Done(
            Err(error),
        ),
        (HandoffStepView::CheckArmed, HandoffEventView::Failed(error)) => HandoffStepView::Done(
            Err(error),
        ),
        (HandoffStepView::CheckStillArmed, HandoffEventView::Failed(error)) => {
            HandoffStepView::Done(Err(error))
        },
        _ => step,
    }
}

/// Takes the handoff one step further. It begins with the announcement.
pub fn complete_restart_successor_handoff(step: HandoffStep, event: HandoffEvent) -> (next:
    HandoffStep)
    ensures
        next@ == next_handoff_step(step@, event@),
{
    match (step, event) {
        (HandoffStep::SendWaiting, HandoffEvent::Sent) => HandoffStep::ReadWord,
        (HandoffStep::SendWaiting, HandoffEvent::NotSent) => HandoffStep::Done(
            Err("announce WAITING restart successor".to_owned()),
        ),
        (HandoffStep::ReadWord, HandoffEvent::Word(word)) => {
            let heard = match &word {
                Some(word) => Some(word.as_str()),
                None => None,
            };
            match handoff_authority(heard) {
                HandoffAuthority::IfArmed => HandoffStep::CheckArmed,
                HandoffAuthority::Denied => HandoffStep::Done(Ok(false)),
                HandoffAuthority::Invalid { message } => HandoffStep::Done(Err(message)),
            }
        },
        (HandoffStep::CheckArmed, HandoffEvent::Armed(armed)) => if armed {
            HandoffStep::SendActive
        } else {
            HandoffStep::Done(Ok(false))
        },
        (HandoffStep::SendActive, HandoffEvent::Sent) => HandoffStep::Done(Ok(true)),
        (HandoffStep::SendActive, HandoffEvent::NotSent) => HandoffStep::CheckStillArmed,
        (HandoffStep::CheckStillArmed, HandoffEvent::Armed(armed)) => if armed {
            HandoffStep::Done(Ok(true))
        } else {
            HandoffStep::Done(Err("publish ACTIVE restart successor".to_owned()))
        },
        (HandoffStep::ReadWord, HandoffEvent::Failed(error)) => HandoffStep::Done(Err(error)),
        (HandoffStep::CheckArmed, HandoffEvent::Failed(error)) => HandoffStep::Done(Err(error)),
        (HandoffStep::CheckStillArmed, HandoffEvent::Failed(error)) => HandoffStep::Done(
            Err(error),
        ),
        (step, _) => step,
    }
}

/// What the helper meets: the daemon's word, whether the restart is armed when the word has come,
/// whether its answer reaches the daemon, and whether the restart is armed after that.
pub struct HandoffCourse {
    pub word: Option<Seq<char>>,
    pub armed: bool,
    pub active_delivered: bool,
    pub still_armed: bool,
}

/// What comes of a step. The announcement reaches the daemon.
pub open spec fn handoff_event(course: HandoffCourse, step: HandoffStepView) -> HandoffEventView {
    match step {
        HandoffStepView::ReadWord => HandoffEventView::Word(course.word),
        HandoffStepView::CheckArmed => HandoffEventView::Armed(course.armed),
        HandoffStepView::SendActive => if course.active_delivered {
            HandoffEventView::Sent
        } else {
            HandoffEventView::NotSent
        },
        HandoffStepView::CheckStillArmed => HandoffEventView::Armed(course.still_armed),
        _ => HandoffEventView::Sent,
    }
}

/// The steps from one on, `n` at most.
pub open spec fn handoff_steps(
    course: HandoffCourse,
    step: HandoffStepView,
    n: nat,
) -> Seq<HandoffStepView>
    decreases n,
{
    if n == 0 {
        Seq::empty()
    } else if step is Done {
        seq![step]
    } else {
        seq![step] + handoff_steps(
            course,
            next_handoff_step(step, handoff_event(course, step)),
            (n - 1) as nat,
        )
    }
}

/// The steps of a whole handoff, which are six at most.
pub open spec fn handoff(course: HandoffCourse) -> Seq<HandoffStepView> {
    handoff_steps(course, HandoffStepView::SendWaiting, 6)
}

/// A handoff step by step. The helper announces itself, and only then reads the daemon's word. A
/// word against it ends the handoff before the record is looked at, and so does a word that is none.
/// Otherwise it answers exactly where the restart is armed for it, and takes over exactly where it
/// has answered, unless its answer was lost and the restart is no longer armed.
pub proof fn handoff_follows_the_word(course: HandoffCourse)
    ensures
        handoff(course) == match handoff_verdict(course.word) {
            None => seq![
                HandoffStepView::SendWaiting,
                HandoffStepView::ReadWord,
                HandoffStepView::Done(
                    Err("invalid restart handoff command "@ + text::debug_of(course.word->0)),
                ),
            ],
            Some(false) => seq![
                HandoffStepView::SendWaiting,
                HandoffStepView::ReadWord,
                HandoffStepView::Done(Ok(false)),
            ],
            Some(true) => if !course.armed {
                seq![
                    HandoffStepView::SendWaiting,
                    HandoffStepView::ReadWord,
                    HandoffStepView::CheckArmed,
                    HandoffStepView::Done(Ok(false)),
                ]
            } else if course.active_delivered {
                seq![
                    HandoffStepView::SendWaiting,
                    HandoffStepView::ReadWord,
                    HandoffStepView::CheckArmed,
                    HandoffStepView::SendActive,
                    HandoffStepView::Done(Ok(true)),
                ]
            } else {
                seq![
                    HandoffStepView::SendWaiting,
                    HandoffStepView::ReadWord,
                    HandoffStepView::CheckArmed,
                    HandoffStepView::SendActive,
                    HandoffStepView::CheckStillArmed,
                    HandoffStepView::Done(
                        if course.still_armed {
                            Ok(true)
                        } else {
                            Err("publish ACTIVE restart successor"@)
                        },
                    ),
                ]
            },
        },
{
    reveal_with_fuel(handoff_steps, 7);
}

/// The helper announces itself first, and then hears the daemon's word. It tells the daemon that it
/// has taken over exactly where the word lets it and the restart is armed for it.
pub proof fn active_is_sent_exactly_where_armed(course: HandoffCourse)
    ensures
        handoff(course)[0] == HandoffStepView::SendWaiting,
        handoff(course)[1] == HandoffStepView::ReadWord,
        handoff(course).contains(HandoffStepView::SendActive) <==> handoff_verdict(course.word)
            == Some(true) && course.armed,
{
    handoff_follows_the_word(course);
    if handoff_verdict(course.word) == Some(true) && course.armed {
        assert(handoff(course)[3] == HandoffStepView::SendActive);
    }
}

/// While the record does not change, the helper takes over exactly where it tells the daemon so.
pub proof fn active_is_sent_exactly_at_takeover(course: HandoffCourse)
    requires
        course.still_armed == course.armed,
    ensures
        handoff(course).contains(HandoffStepView::SendActive) <==> handoff(course).last()
            == HandoffStepView::Done(Ok(true)),
{
    handoff_follows_the_word(course);
    active_is_sent_exactly_where_armed(course);
}

/// The helper takes over only a restart that is armed exactly for it, and never against the
/// daemon's word.
pub proof fn takeover_needs_an_armed_restart(course: HandoffCourse)
    requires
        handoff(course).last() == HandoffStepView::Done(Ok(true)),
    ensures
        course.armed,
        handoff_verdict(course.word) == Some(true),
{
    handoff_follows_the_word(course);
}

/// What a daemon says of itself.
#[derive(Clone, PartialEq, Eq, Debug)]
pub struct DaemonIdentity {
    pub instance_id: String,
    pub generation_id: String,
    pub protocol_version: u32,
    pub ready: bool,
}

/// A restart that a daemon has accepted.
#[derive(Clone, PartialEq, Eq, Debug)]
pub struct AcceptedRestart {
    pub restart_id: String,
    pub predecessor: DaemonIdentity,
    pub target_generation: String,
}

/// The daemon is the one that the restart is to bring up: another than before, of the generation
/// that was agreed on, with the same protocol.
pub open spec fn succeeds(identity: DaemonIdentity, record: RestartRecord) -> bool {
    &&& identity.instance_id@ != record.daemon_instance_id@
    &&& identity.generation_id@ == record.target_generation@
    &&& identity.protocol_version == record.protocol_version
}

/// Whether a daemon is the one that the restart is to bring up.
pub fn is_exact_successor(identity: &DaemonIdentity, record: &RestartRecord) -> (result: bool)
    ensures
        result == succeeds(*identity, *record),
{
    !same(identity.instance_id.as_str(), record.daemon_instance_id.as_str()) && same(
        identity.generation_id.as_str(),
        record.target_generation.as_str(),
    ) && identity.protocol_version == record.protocol_version
}

/// What a daemon answered to a request for a restart.
#[derive(Clone, PartialEq, Eq, Debug)]
pub enum RestartReply {
    Accepted { restart_id: String, daemon_instance_id: String, target_generation: String },
    Rejected { code: String, message: String },
    /// Anything else, as it is shown.
    Unexpected { shown: String },
}

/// Checks the answer to a request for a restart. It has to come from the daemon that was asked who
/// it is before.
pub fn accept_restart(predecessor: DaemonIdentity, reply: RestartReply) -> (result: Result<
    AcceptedRestart,
    String,
>)
    ensures
        match reply {
            RestartReply::Accepted {
                restart_id,
                daemon_instance_id,
                target_generation,
            } => match result {
                Ok(accepted) => daemon_instance_id@ == predecessor.instance_id@ && accepted == (
                AcceptedRestart { restart_id, predecessor, target_generation }),
                Err(message) => daemon_instance_id@ != predecessor.instance_id@ && message@
                    == "restart was accepted by daemon "@ + daemon_instance_id@
                    + ", but Ping identified "@ + predecessor.instance_id@,
            },
            RestartReply::Rejected { code, message } => result matches Err(told) && told@
                == "daemon rejected restart ("@ + code@ + "): "@ + message@,
            RestartReply::Unexpected { shown } => result matches Err(told) && told@
                == "daemon returned unexpected restart response: "@ + shown@,
        },
{
    match reply {
        RestartReply::Accepted { restart_id, daemon_instance_id, target_generation } => {
            if !same(daemon_instance_id.as_str(), predecessor.instance_id.as_str()) {
                return Err(
                    join4(
                        "restart was accepted by daemon ",
                        daemon_instance_id.as_str(),
                        ", but Ping identified ",
                        predecessor.instance_id.as_str(),
                    ),
                );
            }
            Ok(AcceptedRestart { restart_id, predecessor, target_generation })
        },
        RestartReply::Rejected { code, message } => Err(
            join4("daemon rejected restart (", code.as_str(), "): ", message.as_str()),
        ),
        RestartReply::Unexpected { shown } => Err(
            join2("daemon returned unexpected restart response: ", shown.as_str()),
        ),
    }
}

/// What is done in one round of a wait for a daemon.
#[derive(Clone, PartialEq, Eq, Debug)]
pub enum ReadyStep {
    Ready,
    /// Look again later.
    Wait,
    GiveUp { message: String },
}

/// The daemon is the successor that was agreed on, and ready.
pub open spec fn is_ready_successor(identity: DaemonIdentity, accepted: AcceptedRestart) -> bool {
    &&& identity.instance_id@ != accepted.predecessor.instance_id@
    &&& identity.generation_id@ == accepted.target_generation@
    &&& identity.protocol_version == accepted.predecessor.protocol_version
    &&& identity.ready
}

/// Decides on one round of the wait for the successor. There is no identity where no daemon
/// answered; times are in milliseconds.
pub fn wait_for_successor(
    identity: Option<&DaemonIdentity>,
    accepted: &AcceptedRestart,
    now: u64,
    deadline: u64,
    timeout_seconds: u64,
) -> (step: ReadyStep)
    ensures
        if identity matches Some(identity) && is_ready_successor(*identity, *accepted) {
            step == ReadyStep::Ready
        } else if now >= deadline {
            step matches ReadyStep::GiveUp { message } && message@ == "successor for restart "@
                + accepted.restart_id@ + " was not ready within "@ + text::decimal(
                timeout_seconds as nat,
            ) + " s; drain/restart continues and no task was killed"@
        } else {
            step == ReadyStep::Wait
        },
{
    let ready = match identity {
        Some(identity) => !same(
            identity.instance_id.as_str(),
            accepted.predecessor.instance_id.as_str(),
        ) && same(identity.generation_id.as_str(), accepted.target_generation.as_str())
            && identity.protocol_version == accepted.predecessor.protocol_version
            && identity.ready,
        None => false,
    };
    if ready {
        ReadyStep::Ready
    } else if now >= deadline {
        let seconds = decimal_text(timeout_seconds);
        ReadyStep::GiveUp {
            message: join5(
                "successor for restart ",
                accepted.restart_id.as_str(),
                " was not ready within ",
                seconds.as_str(),
                " s; drain/restart continues and no task was killed",
            ),
        }
    } else {
        ReadyStep::Wait
    }
}

/// Decides on one round of the wait for any daemon. Times are in milliseconds.
pub fn wait_for_any_ready_daemon(ready: bool, now: u64, deadline: u64, timeout_seconds: u64)
    -> (step: ReadyStep)
    ensures
        if ready {
            step == ReadyStep::Ready
        } else if now >= deadline {
            step matches ReadyStep::GiveUp { message } && message@ == "daemon was not ready within "@
                + text::decimal(timeout_seconds as nat) + " s"@
        } else {
            step == ReadyStep::Wait
        },
{
    if ready {
        ReadyStep::Ready
    } else if now >= deadline {
        let seconds = decimal_text(timeout_seconds);
        ReadyStep::GiveUp {
            message: join3("daemon was not ready within ", seconds.as_str(), " s"),
        }
    } else {
        ReadyStep::Wait
    }
}

/// How long the helper waits before it starts the successor again, in milliseconds.
pub const START_RETRY_MILLIS: u64 = 3000;

/// What the helper does in one round.
#[derive(Clone, Copy, PartialEq, Eq, Structural, Debug)]
pub enum WatchdogStep {
    /// The restart is over or no longer the helper's.
    Finish,
    /// Have the service manager start the successor.
    StartService,
    /// Start the successor.
    StartDirectly,
    /// Look again later.
    Wait,
}

/// Who starts the successor is fixed by the record of the restart.
pub fn start_successor_for_record(record: &RestartRecord) -> (step: WatchdogStep)
    ensures
        step == if record.supervisor_restart {
            WatchdogStep::StartService
        } else {
            WatchdogStep::StartDirectly
        },
{
    if record.supervisor_restart {
        WatchdogStep::StartService
    } else {
        WatchdogStep::StartDirectly
    }
}

/// Decides on one round of the helper. There is no record where the restart was cancelled or
/// replaced, no identity where no daemon answered, and no time of an attempt before the first.
/// `owner_released` says whether the daemon's lock can be taken; times are in milliseconds.
pub fn watchdog_step(
    record: Option<&RestartRecord>,
    identity: Option<&DaemonIdentity>,
    owner_released: bool,
    last_attempt: Option<u64>,
    now: u64,
) -> (step: WatchdogStep)
    ensures
        match record {
            None => step == WatchdogStep::Finish,
            Some(record) => if identity matches Some(identity) && succeeds(*identity, *record)
                && identity.ready {
                step == WatchdogStep::Finish
            } else if owner_released && (last_attempt matches Some(attempt) ==> now - attempt
                >= START_RETRY_MILLIS) {
                step == if record.supervisor_restart {
                    WatchdogStep::StartService
                } else {
                    WatchdogStep::StartDirectly
                }
            } else {
                step == WatchdogStep::Wait
            },
        },
{
    let record = match record {
        Some(record) => record,
        None => return WatchdogStep::Finish,
    };
    if let Some(identity) = identity {
        if is_exact_successor(identity, record) && identity.ready {
            return WatchdogStep::Finish;
        }
    }
    let may_retry = match last_attempt {
        Some(attempt) => now >= attempt && now - attempt >= START_RETRY_MILLIS,
        None => true,
    };
    if owner_released && may_retry {
        start_successor_for_record(record)
    } else {
        WatchdogStep::Wait
    }
}

/// Checks the descriptor of the helper's end of the handoff channel: the first three are taken.
pub fn check_handoff_fd(handoff_fd: i32) -> (result: Result<(), String>)
    ensures
        match result {
            Ok(()) => handoff_fd >= 3,
            Err(message) => handoff_fd < 3 && message@ == "invalid restart handoff fd "@ + (
            if handoff_fd < 0 {
                "-"@ + text::decimal((-(handoff_fd as int)) as nat)
            } else {
                text::decimal(handoff_fd as nat)
            }),
        },
{
    if handoff_fd >= 3 {
        return Ok(());
    }
    let shown = if handoff_fd < 0 {
        let size = decimal_text((-(handoff_fd as i64)) as u64);
        join2("-", size.as_str())
    } else {
        decimal_text(handoff_fd as u64)
    };
    Err(join2("invalid restart handoff fd ", shown.as_str()))
}

/// What is reported when a helper does not get as far as to wait. `reaped` tells why the helper
/// could not be ended, if it could not.
pub fn waiting_failure(error: &str, reap_error: Option<&str>) -> (message: String)
    ensures
        message@ == match reap_error {
            None => "successor helper did not reach WAITING: "@ + error@,
            Some(reap) => "successor helper did not reach WAITING: "@ + error@
                + "; helper could not be reaped: "@ + reap@,
        },
{
    match reap_error {
        None => join2("successor helper did not reach WAITING: ", error),
        Some(reap) => join4(
            "successor helper did not reach WAITING: ",
            error,
            "; helper could not be reaped: ",
            reap,
        ),
    }
}

/// A signal is framed by the end of a line, and no two signals have one frame.
pub proof fn frames_tell_signals_apart(a: &str, b: &str, frame: Vec<u8>, other: Vec<u8>)
    requires
        call_ensures(restart_handoff_frame, (a,), frame),
        call_ensures(restart_handoff_frame, (b,), other),
    ensures
        frame@.last() == 10,
        frame@ == other@ <==> a@ == b@,
{
    if frame@ == other@ {
        assert(frame@.drop_last() =~= text::utf8(a@));
        assert(other@.drop_last() =~= text::utf8(b@));
        text::lemma_decoded(a@);
        text::lemma_decoded(b@);
    }
}

/// A signal is complete with the end of its line and not before, and has at most 32 bytes: one more is
/// a fault. Bytes are kept in the order in which they come.
pub proof fn signal_ends_with_its_line(reader: &mut HandoffReader, byte: u8, read: HandoffRead)
    requires
        call_ensures(HandoffReader::take, (reader, byte), read),
    ensures
        read is More <==> byte != 10 && old(reader).frame@.len() < 32,
        read is More ==> final(reader).frame@ == old(reader).frame@.push(byte),
        !(read is More) ==> final(reader).frame@ == old(reader).frame@,
        read is Signal ==> byte == 10,
        byte == 10 ==> (read matches HandoffRead::Signal(signal) ==> text::utf8(signal@) == old(reader).frame@),
        byte != 10 && old(reader).frame@.len() >= 32 ==> read is Failed,
        !(read is Closed),
{
    if byte == 10 && vstd::utf8::valid_utf8(old(reader).frame@) {
        vstd::utf8::decode_utf8_encode_utf8(old(reader).frame@);
    }
}

/// A channel that closes between signals is closed; one that closes within a signal has failed.
pub proof fn closing_within_a_signal_is_a_fault(reader: &HandoffReader, read: HandoffRead)
    requires
        call_ensures(HandoffReader::closed, (reader,), read),
    ensures
        read is Closed <==> reader.frame@.len() == 0,
        read is Failed <==> reader.frame@.len() > 0,
{
}

/// Only the expected signal will do, and a closed channel never does.
pub proof fn only_the_expected_signal_will_do(
    signal: Option<&str>,
    expected: &str,
    result: Result<(), String>,
)
    requires
        call_ensures(expect_signal, (signal, expected), result),
    ensures
        result is Ok <==> (signal matches Some(found) && found@ == expected@),
{
}

/// The daemon's word lets the helper go on exactly where it is COMMIT, or where there is none because
/// the daemon is gone; ABORT forbids it, and no other word exists.
pub proof fn commit_and_silence_let_the_helper_go_on(
    parent_signal: Option<&str>,
    authority: HandoffAuthority,
)
    requires
        call_ensures(handoff_authority, (parent_signal,), authority),
    ensures
        authority is IfArmed <==> (parent_signal matches Some(word) ==> word@ == "COMMIT"@),
        authority is Denied <==> (parent_signal matches Some(word) && word@ == "ABORT"@),
        authority is Invalid <==> (parent_signal matches Some(word) && word@ != "COMMIT"@ && word@
            != "ABORT"@),
{
    reveal_strlit("COMMIT");
    reveal_strlit("ABORT");
    assert("COMMIT"@.len() == 6);
    assert("ABORT"@.len() == 5);
}

/// The helper announces itself with WAITING and answers with ACTIVE, and sends nothing in any other
/// step.
pub proof fn helper_sends_two_signals(step: &HandoffStep, signal: Option<&'static str>)
    requires
        call_ensures(HandoffStep::signal, (step,), signal),
    ensures
        signal is Some <==> *step is SendWaiting || *step is SendActive,
        *step is SendWaiting ==> signal->0@ == "WAITING"@,
        *step is SendActive ==> signal->0@ == "ACTIVE"@,
{
}

/// A step that fails ends the handoff with its error, except that an answer which is lost is first
/// held against the record; and a handoff that is over stays over.
pub proof fn failed_step_ends_the_handoff(step: HandoffStep, error: String, next: HandoffStep)
    requires
        call_ensures(
            complete_restart_successor_handoff,
            (step, HandoffEvent::Failed(error)),
            next,
        ),
    ensures
        step is ReadWord || step is CheckArmed || step is CheckStillArmed ==> next@
            == HandoffStepView::Done(Err(error@)),
        step is SendWaiting || step is SendActive || step is Done ==> next@ == step@,
{
}

/// What does not come of a step does not move the handoff: it goes from one step to the next only by
/// what that step asked for.
pub proof fn handoff_moves_by_its_steps(step: HandoffStep, event: HandoffEvent, next: HandoffStep)
    requires
        call_ensures(complete_restart_successor_handoff, (step, event), next),
    ensures
        next is ReadWord && !(step is ReadWord) ==> step is SendWaiting && event is Sent,
        next is CheckArmed && !(step is CheckArmed) ==> step is ReadWord && event is Word,
        next is SendActive && !(step is SendActive) ==> step is CheckArmed && event
            == HandoffEvent::Armed(true),
        next is CheckStillArmed && !(step is CheckStillArmed) ==> step is SendActive && event
            is NotSent,
        next@ == HandoffStepView::Done(Ok(true)) && !(step is Done) ==> step is SendActive && event
            is Sent || step is CheckStillArmed && event == HandoffEvent::Armed(true),
        next@ == HandoffStepView::Done(Ok(false)) && !(step is Done) ==> step is ReadWord && event
            is Word || step is CheckArmed && event == HandoffEvent::Armed(false),
{
}

/// A daemon succeeds another exactly where it is another instance, of the generation that was agreed
/// on, and speaks the same protocol: each of the three is needed, and readiness is not.
pub proof fn successor_is_told_by_three_marks(
    identity: &DaemonIdentity,
    record: &RestartRecord,
    result: bool,
)
    requires
        call_ensures(is_exact_successor, (identity, record), result),
    ensures
        result ==> identity.instance_id@ != record.daemon_instance_id@,
        result ==> identity.generation_id@ == record.target_generation@,
        result ==> identity.protocol_version == record.protocol_version,
        identity.instance_id@ != record.daemon_instance_id@ && identity.generation_id@
            == record.target_generation@ && identity.protocol_version == record.protocol_version
            ==> result,
{
}

/// A restart counts as accepted exactly where the daemon accepted it that had answered before, and
/// goes on under the names that it gave.
pub proof fn restart_is_accepted_by_the_daemon_that_answered(
    predecessor: DaemonIdentity,
    reply: RestartReply,
    result: Result<AcceptedRestart, String>,
)
    requires
        call_ensures(accept_restart, (predecessor, reply), result),
    ensures
        result is Ok <==> (reply matches RestartReply::Accepted { daemon_instance_id, .. }
            && daemon_instance_id@ == predecessor.instance_id@),
        result matches Ok(accepted) ==> accepted.predecessor == predecessor
            && accepted.restart_id == reply->restart_id && accepted.target_generation
            == reply->target_generation,
{
}

/// The wait for a successor ends exactly where the exact successor is ready, however late, and is given
/// up exactly at its deadline: the predecessor, a daemon of another generation or protocol, and one
/// that is not ready do not end it.
pub proof fn wait_ends_with_the_exact_successor(
    identity: Option<&DaemonIdentity>,
    accepted: &AcceptedRestart,
    now: u64,
    deadline: u64,
    timeout_seconds: u64,
    step: ReadyStep,
)
    requires
        call_ensures(
            wait_for_successor,
            (identity, accepted, now, deadline, timeout_seconds),
            step,
        ),
    ensures
        step is Ready <==> (identity matches Some(identity) && identity.ready
            && identity.instance_id@ != accepted.predecessor.instance_id@ && identity.generation_id@
            == accepted.target_generation@ && identity.protocol_version
            == accepted.predecessor.protocol_version),
        !(step is Ready) ==> (step is GiveUp <==> now >= deadline),
        !(step is Ready) ==> (step is Wait <==> now < deadline),
{
}

/// The wait for any daemon ends exactly where one is ready, and is given up exactly at its deadline.
pub proof fn wait_ends_with_any_ready_daemon(
    ready: bool,
    now: u64,
    deadline: u64,
    timeout_seconds: u64,
    step: ReadyStep,
)
    requires
        call_ensures(wait_for_any_ready_daemon, (ready, now, deadline, timeout_seconds), step),
    ensures
        step is Ready <==> ready,
        step is GiveUp <==> !ready && now >= deadline,
        step is Wait <==> !ready && now < deadline,
{
}

/// The helper is done where the restart is no longer its own, or the exact successor is ready.
/// Otherwise it starts a successor once the daemon has let go and three seconds after its last
/// attempt, in the way that the record says, and never while the daemon holds on.
pub proof fn helper_starts_the_successor_of_its_record(
    record: Option<&RestartRecord>,
    identity: Option<&DaemonIdentity>,
    owner_released: bool,
    last_attempt: Option<u64>,
    now: u64,
    step: WatchdogStep,
)
    requires
        call_ensures(
            watchdog_step,
            (record, identity, owner_released, last_attempt, now),
            step,
        ),
    ensures
        step is Finish <==> record is None || (identity matches Some(identity) && identity.ready
            && identity.instance_id@ != record->0.daemon_instance_id@ && identity.generation_id@
            == record->0.target_generation@ && identity.protocol_version
            == record->0.protocol_version),
        step is StartService || step is StartDirectly ==> owner_released && record is Some,
        step is StartService ==> record->0.supervisor_restart,
        step is StartDirectly ==> !record->0.supervisor_restart,
        last_attempt matches Some(attempt) && now < attempt + 3000 ==> !(step is StartService)
            && !(step is StartDirectly),
        !(step is Finish) && owner_released && (last_attempt matches Some(attempt) ==> now
            >= attempt + 3000) ==> step is StartService || step is StartDirectly,
{
}

/// The first three descriptors are taken, and no other is refused.
pub proof fn first_descriptors_are_taken(handoff_fd: i32, result: Result<(), String>)
    requires
        call_ensures(check_handoff_fd, (handoff_fd,), result),
    ensures
        result is Err <==> handoff_fd <= 2,
{
}

} // verus!
