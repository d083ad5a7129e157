//! Decoder for the build tool's structured progress protocol.
//!
//! Each protocol line carries a fixed `@nix ` sentinel followed by one JSON
//! object with an `action` discriminator: `start`, `stop`, `result` or
//! `msg`. The JSON surface is read by a trusted decoder into a plain
//! [`RawMessage`]; everything after that — classification into a
//! [`ProtocolEvent`] and the bookkeeping of running activities — is verified
//! logic. An unknown action, activity-type code or result code means the
//! stream is desynchronized and is a fatal [`ProtocolError`]; a duplicate
//! `stop` is tolerated.

use vstd::prelude::*;
use vstd::string::StrSliceExecFns;

verus! {

/// What a `start` line announces: the kind of work the activity performs.
#[derive(Debug, Clone, Copy, PartialEq, Eq, Structural)]
pub enum ActivityType {
    Unknown,
    CopyPath,
    FileTransfer,
    Realise,
    CopyPaths,
    Builds,
    Build,
    OptimiseStore,
    VerifyPaths,
    Substitute,
    QueryPathInfo,
    PostBuildHook,
    BuildWaiting,
    FetchTree,
}

/// The activity-type codes the protocol defines: `0` and `100` through
/// `112`. Anything else is a desynchronized stream.
pub open spec fn is_known_activity_type(type_id: u64) -> bool {
    type_id == 0 || 100 <= type_id <= 112
}

/// The activity type each known code stands for.
pub open spec fn activity_type_of(type_id: u64) -> ActivityType
    recommends
        is_known_activity_type(type_id),
{
    if type_id == 0 {
        ActivityType::Unknown
    } else if type_id == 100 {
        ActivityType::CopyPath
    } else if type_id == 101 {
        ActivityType::FileTransfer
    } else if type_id == 102 {
        ActivityType::Realise
    } else if type_id == 103 {
        ActivityType::CopyPaths
    } else if type_id == 104 {
        ActivityType::Builds
    } else if type_id == 105 {
        ActivityType::Build
    } else if type_id == 106 {
        ActivityType::OptimiseStore
    } else if type_id == 107 {
        ActivityType::VerifyPaths
    } else if type_id == 108 {
        ActivityType::Substitute
    } else if type_id == 109 {
        ActivityType::QueryPathInfo
    } else if type_id == 110 {
        ActivityType::PostBuildHook
    } else if type_id == 111 {
        ActivityType::BuildWaiting
    } else {
        ActivityType::FetchTree
    }
}

impl ActivityType {
    /// Decodes a known activity-type code; unknown codes are ruled out by
    /// the caller, who treats them as protocol desynchronization.
    pub fn parse(type_id: u64) -> (r: Self)
        requires
            is_known_activity_type(type_id),
        ensures
            r == activity_type_of(type_id),
    {
        match type_id {
            0 => ActivityType::Unknown,
            100 => ActivityType::CopyPath,
            101 => ActivityType::FileTransfer,
            102 => ActivityType::Realise,
            103 => ActivityType::CopyPaths,
            104 => ActivityType::Builds,
            105 => ActivityType::Build,
            106 => ActivityType::OptimiseStore,
            107 => ActivityType::VerifyPaths,
            108 => ActivityType::Substitute,
            109 => ActivityType::QueryPathInfo,
            110 => ActivityType::PostBuildHook,
            111 => ActivityType::BuildWaiting,
            _ => ActivityType::FetchTree,
        }
    }

    /// Total form of [`ActivityType::parse`]: `None` exactly on the codes
    /// the protocol does not define.
    pub fn try_parse(type_id: u64) -> (r: Option<Self>)
        ensures
            is_known_activity_type(type_id) ==> r == Some(activity_type_of(type_id)),
            !is_known_activity_type(type_id) ==> r is None,
    {
        if type_id == 0 || (100 <= type_id && type_id <= 112) {
            Some(ActivityType::parse(type_id))
        } else {
            None
        }
    }
}

/// The result codes a `result` line may carry: `100` through `107`.
pub open spec fn is_known_result_type(code: u64) -> bool {
    100 <= code <= 107
}

/// The fields of one protocol line, decoded from its JSON object into plain
/// values. Absent or differently-typed fields are `None`; which fields are
/// required depends on the action and is decided by [`classify`].
#[derive(Debug, Clone)]
pub struct RawMessage {
    /// The `action` discriminator.
    pub action: String,
    /// The activity id, for `start`, `stop` and `result`.
    pub id: Option<u64>,
    /// The `type` code: an activity type on `start`, a result type on
    /// `result`.
    pub type_code: Option<u64>,
    /// The free-text description of a `start`.
    pub text: Option<String>,
    /// The verbosity level of a `start` or `msg`.
    pub level: Option<u64>,
    /// The message text of a `msg`.
    pub msg: Option<String>,
    /// The first entry of the `fields` array, as display text; on a `start`
    /// it names the subject of the activity (a store path, a host).
    pub field0: Option<String>,
}

/// One lifecycle event of the protocol, ready to be applied to the set of
/// running activities.
#[derive(Debug, Clone)]
pub enum ProtocolEvent {
    Start { id: u64, activity_type: ActivityType, text: String, name: Option<String> },
    Stop { id: u64 },
    Result { id: u64, result_type: u64 },
    Msg { level: u64, msg: String },
}

/// Why a line, or the stream it came from, cannot be trusted further.
/// `MalformedLine`, `UnknownAction`, `MissingField`, `UnknownActivityType`
/// and `UnknownResultType` mean desynchronization: the caller should stop
/// feeding the stream and terminate the process behind it.
#[derive(Debug, Clone, Copy, PartialEq, Eq, Structural)]
pub enum ProtocolError {
    /// The payload is not a JSON object with a string `action`.
    MalformedLine,
    /// The `action` value is none of `start`, `stop`, `result`, `msg`.
    UnknownAction,
    /// A field the action requires is absent or of the wrong type.
    MissingField,
    /// A `start` carried an activity-type code the protocol does not define.
    UnknownActivityType,
    /// A `result` carried a result code the protocol does not define.
    UnknownResultType,
    /// A `result` referred to an id with no running activity.
    UnmatchedResult,
}

/// What [`classify`] returns for a decoded line: the complete decision
/// table of the protocol's per-line validation.
pub open spec fn classify_spec(m: RawMessage) -> Result<ProtocolEvent, ProtocolError> {
    if m.action@ == "start"@ {
        if m.id is None || m.type_code is None || m.text is None {
            Err(ProtocolError::MissingField)
        } else if !is_known_activity_type(m.type_code->0) {
            Err(ProtocolError::UnknownActivityType)
        } else {
            Ok(ProtocolEvent::Start {
                id: m.id->0,
                activity_type: activity_type_of(m.type_code->0),
                text: m.text->0,
                name: m.field0,
            })
        }
    } else if m.action@ == "stop"@ {
        if m.id is None {
            Err(ProtocolError::MissingField)
        } else {
            Ok(ProtocolEvent::Stop { id: m.id->0 })
        }
    } else if m.action@ == "result"@ {
        if m.id is None || m.type_code is None {
            Err(ProtocolError::MissingField)
        } else if !is_known_result_type(m.type_code->0) {
            Err(ProtocolError::UnknownResultType)
        } else {
            Ok(ProtocolEvent::Result { id: m.id->0, result_type: m.type_code->0 })
        }
    } else if m.action@ == "msg"@ {
        if m.msg is None || m.level is None {
            Err(ProtocolError::MissingField)
        } else {
            Ok(ProtocolEvent::Msg { level: m.level->0, msg: m.msg->0 })
        }
    } else {
        Err(ProtocolError::UnknownAction)
    }
}

/// Whether a string holds exactly the given text.
fn action_is(a: &String, lit: &str) -> (r: bool)
    ensures
        r == (a@ == lit@),
{
    let s = lit.to_owned();
    *a == s
}

/// Turns a decoded line into a protocol event, validating everything that
/// does not need the activity state: the action, the fields it requires and
/// the type codes it carries.
pub fn classify(m: RawMessage) -> (r: Result<ProtocolEvent, ProtocolError>)
    ensures
        r == classify_spec(m),
{
    if action_is(&m.action, "start") {
        match (m.id, m.type_code, m.text) {
            (Some(id), Some(type_code), Some(text)) => {
                match ActivityType::try_parse(type_code) {
                    Some(activity_type) => Ok(ProtocolEvent::Start {
                        id,
                        activity_type,
                        text,
                        name: m.field0,
                    }),
                    None => Err(ProtocolError::UnknownActivityType),
                }
            },
            _ => Err(ProtocolError::MissingField),
        }
    } else if action_is(&m.action, "stop") {
        match m.id {
            Some(id) => Ok(ProtocolEvent::Stop { id }),
            None => Err(ProtocolError::MissingField),
        }
    } else if action_is(&m.action, "result") {
        match (m.id, m.type_code) {
            (Some(id), Some(result_type)) => {
                if 100 <= result_type && result_type <= 107 {
                    Ok(ProtocolEvent::Result { id, result_type })
                } else {
                    Err(ProtocolError::UnknownResultType)
                }
            },
            _ => Err(ProtocolError::MissingField),
        }
    } else if action_is(&m.action, "msg") {
        match (m.msg, m.level) {
            (Some(msg), Some(level)) => Ok(ProtocolEvent::Msg { level, msg }),
            _ => Err(ProtocolError::MissingField),
        }
    } else {
        Err(ProtocolError::UnknownAction)
    }
}

/// Names what serde_json's parser and `Value` accessors yield for a
/// payload, as a [`RawMessage`]: `None` when the payload is not a JSON
/// object with a string `action` field. The pipeline depends only on the
/// result being a function of the payload alone; [`classify`] validates it
/// for every possible value.
pub uninterp spec fn decoded_line_of(s: Seq<char>) -> Option<RawMessage>;

/// Relies on serde_json: `from_str` parses the payload as JSON, and the
/// `Value` accessors pull out the fields each action may carry, as plain
/// values. The same payload always decodes to the same message, which is
/// all [`decoded_line_of`] states.
#[verifier::external_body]
fn decode_json_line(s: &str) -> (r: Option<RawMessage>)
    ensures
        r == decoded_line_of(s@),
{
    let v: serde_json::Value = serde_json::from_str(s).ok()?;
    Some(RawMessage {
        action: v.get("action")?.as_str()?.to_string(),
        id: v.get("id").and_then(serde_json::Value::as_u64),
        type_code: v.get("type").and_then(serde_json::Value::as_u64),
        level: v.get("level").and_then(serde_json::Value::as_u64),
        text: v.get("text").and_then(serde_json::Value::as_str).map(str::to_string),
        msg: v.get("msg").and_then(serde_json::Value::as_str).map(str::to_string),
        field0: v.get("fields").and_then(|f| f.get(0)).map(|x| x.to_string()),
    })
}

/// The fixed sentinel marking a line as protocol output.
pub open spec fn has_sentinel(s: Seq<char>) -> bool {
    s.len() >= 5 && s.subrange(0, 5) == "@nix "@
}

/// Whether a raw log line carries the protocol sentinel. Lines without it
/// are ordinary human-readable output and are not fed to the parser.
pub fn has_protocol_prefix(line: &str) -> (r: bool)
    ensures
        r == has_sentinel(line@),
{
    proof {
        reveal_strlit("@nix ");
    }
    let n = line.unicode_len();
    if n < 5 {
        return false;
    }
    let r = line.get_char(0) == '@' && line.get_char(1) == 'n' && line.get_char(2) == 'i'
        && line.get_char(3) == 'x' && line.get_char(4) == ' ';
    proof {
        if r {
            assert(line@.subrange(0, 5) =~= "@nix "@);
        } else {
            assert(line@.subrange(0, 5) != "@nix "@) by {
                if line@.subrange(0, 5) == "@nix "@ {
                    assert(line@.subrange(0, 5)[0] == '@');
                    assert(line@.subrange(0, 5)[1] == 'n');
                    assert(line@.subrange(0, 5)[2] == 'i');
                    assert(line@.subrange(0, 5)[3] == 'x');
                    assert(line@.subrange(0, 5)[4] == ' ');
                }
            }
        }
    }
    r
}

/// One currently-running activity, keyed by the id of its `start` line.
/// It never outlives the process whose stream it was decoded from: the
/// caller discards the parser when that stream closes.
#[derive(Debug, Clone)]
pub struct Activity {
    /// Display text from the first `fields` entry of the `start` line.
    pub name: Option<String>,
    /// The protocol id the activity is correlated by.
    pub build_id: u64,
    /// Still in the active set; activities are removed when stopped.
    pub running: bool,
    /// Ordinal of the `start` line among all `start` lines seen.
    pub nth_activity: u64,
    pub activity_type: ActivityType,
}

/// The position of the latest running activity with the given id, `-1` when
/// none matches. `stop` and `result` lines correlate to the latest insertion
/// so that id reuse within one session is tolerated.
pub open spec fn last_match(ms: Seq<Activity>, id: u64) -> int
    decreases ms.len(),
{
    if ms.len() == 0 {
        -1
    } else if ms.last().build_id == id {
        ms.len() - 1
    } else {
        last_match(ms.drop_last(), id)
    }
}

/// `last_match` is an in-range position of an activity with the given id,
/// after which no further match occurs, or `-1` with no match at all.
pub proof fn lemma_last_match_bounds(ms: Seq<Activity>, id: u64)
    ensures
        -1 <= last_match(ms, id) < ms.len(),
        last_match(ms, id) >= 0 ==> ms[last_match(ms, id)].build_id == id,
        forall|k: int| last_match(ms, id) < k < ms.len() ==> (#[trigger] ms[k].build_id) != id,
    decreases ms.len(),
{
    if ms.len() == 0 {
    } else if ms.last().build_id == id {
    } else {
        lemma_last_match_bounds(ms.drop_last(), id);
        assert(forall|k: int| 0 <= k < ms.len() - 1 ==> ms.drop_last()[k] == ms[k]);
    }
}

/// The next value of the `start`-line counter; it sticks at the top of its
/// range rather than wrap.
pub open spec fn next_nth(nth: u64) -> u64 {
    if nth < u64::MAX {
        (nth + 1) as u64
    } else {
        nth
    }
}

/// How one protocol event changes the set of running activities: `start`
/// appends a running activity, `stop` removes the latest activity with the
/// stopped id (and is ignored when none matches), `result` and `msg` leave
/// the set as it is.
pub open spec fn step_spec(ms: Seq<Activity>, nth: u64, ev: ProtocolEvent) -> Seq<Activity> {
    match ev {
        ProtocolEvent::Start { id, activity_type, text: _, name } => ms.push(
            Activity {
                name,
                build_id: id,
                running: true,
                nth_activity: next_nth(nth),
                activity_type,
            },
        ),
        ProtocolEvent::Stop { id } => {
            let j = last_match(ms, id);
            if j < 0 {
                ms
            } else {
                ms.remove(j)
            }
        },
        ProtocolEvent::Result { .. } => ms,
        ProtocolEvent::Msg { .. } => ms,
    }
}

/// The `start`-line counter after one event.
pub open spec fn nth_after(nth: u64, ev: ProtocolEvent) -> u64 {
    if ev is Start {
        next_nth(nth)
    } else {
        nth
    }
}

/// Stateful decoder for one process's protocol stream. Its view is the
/// sequence of currently-running activities, in insertion order.
#[derive(Debug)]
pub struct ActivityParser {
    nth_message: u64,
    messages: Vec<Activity>,
}

impl View for ActivityParser {
    type V = Seq<Activity>;

    closed spec fn view(&self) -> Seq<Activity> {
        self.messages@
    }
}

impl ActivityParser {
    /// How many `start` lines the parser has seen.
    pub closed spec fn nth_spec(&self) -> u64 {
        self.nth_message
    }

    pub fn new() -> (r: Self)
        ensures
            r@ == Seq::<Activity>::empty(),
            r.nth_spec() == 0,
    {
        Self { nth_message: 0, messages: Vec::new() }
    }

    /// The number of currently-running activities.
    pub fn active_count(&self) -> (n: usize)
        ensures
            n == self@.len(),
    {
        self.messages.len()
    }

    /// The position of the latest running activity with the given id.
    fn find_last(&self, id: u64) -> (r: Option<usize>)
        ensures
            match r {
                Some(j) => j as int == last_match(self@, id),
                None => last_match(self@, id) == -1,
            },
    {
        let mut found: Option<usize> = None;
        let n = self.messages.len();
        for k in 0..n
            invariant
                n == self.messages.len(),
                match found {
                    Some(j) => j < k <= n && self.messages@[j as int].build_id == id
                        && (forall|m: int|
                            j < m < k ==> (#[trigger] self.messages@[m].build_id) != id),
                    None => forall|m: int|
                        0 <= m < k ==> (#[trigger] self.messages@[m].build_id) != id,
                },
        {
            if self.messages[k].build_id == id {
                found = Some(k);
            }
        }
        proof {
            lemma_last_match_bounds(self@, id);
            let lm = last_match(self@, id);
            match found {
                Some(j) => {
                    assert(lm >= 0) by {
                        if lm == -1 {
                            assert(self@[j as int].build_id != id);
                        }
                    }
                    assert(!(lm < j)) by {
                        if lm < j {
                            assert(self@[j as int].build_id != id);
                        }
                    }
                    assert(!(lm > j)) by {
                        if lm > j {
                            assert(self@[lm].build_id != id);
                        }
                    }
                },
                None => {
                    assert(lm == -1) by {
                        if lm >= 0 {
                            assert(self@[lm].build_id != id);
                        }
                    }
                },
            }
        }
        found
    }

    /// Applies one classified event to the running-activity set, exactly as
    /// [`step_spec`] describes. The one error is a `result` line whose id
    /// matches no running activity — a protocol contract violation — and it
    /// leaves the parser untouched.
    pub fn apply(&mut self, ev: ProtocolEvent) -> (r: Result<(), ProtocolError>)
        ensures
            final(self)@ == step_spec(old(self)@, old(self).nth_spec(), ev),
            final(self).nth_spec() == nth_after(old(self).nth_spec(), ev),
            r is Err ==> *final(self) == *old(self),
            r matches Err(e) ==> e == ProtocolError::UnmatchedResult,
            r is Err <==> (ev matches ProtocolEvent::Result { id, .. } && last_match(
                old(self)@,
                id,
            ) < 0),
    {
        match ev {
            ProtocolEvent::Start { id, activity_type, text: _, name } => {
                if self.nth_message < u64::MAX {
                    self.nth_message = self.nth_message + 1;
                }
                self.messages.push(
                    Activity {
                        name,
                        build_id: id,
                        running: true,
                        nth_activity: self.nth_message,
                        activity_type,
                    },
                );
                Ok(())
            },
            ProtocolEvent::Stop { id } => {
                match self.find_last(id) {
                    Some(j) => {
                        proof {
                            lemma_last_match_bounds(self@, id);
                        }
                        self.messages.remove(j);
                    },
                    None => {},
                }
                Ok(())
            },
            ProtocolEvent::Result { id, result_type: _ } => {
                match self.find_last(id) {
                    Some(_) => Ok(()),
                    None => Err(ProtocolError::UnmatchedResult),
                }
            },
            ProtocolEvent::Msg { .. } => Ok(()),
        }
    }

    /// Consumes one protocol line: strips the sentinel, decodes the JSON
    /// payload, classifies it and applies the event. The whole decision
    /// table stands here, over the decoded payload: an undecodable payload
    /// is the malformed-line error, a payload `classify` rejects is that
    /// error, an unmatched `result` is its error, and otherwise exactly
    /// the classified event is applied. On any error the parser is
    /// unchanged; fatal errors mean the stream can no longer be trusted
    /// and the caller should terminate the process behind it.
    pub fn parse_next(&mut self, line: &str) -> (r: Result<(), ProtocolError>)
        requires
            has_sentinel(line@),
        ensures
            r is Err ==> *final(self) == *old(self),
            ({
                let d = decoded_line_of(line@.skip(5));
                &&& d is None ==> r == Err::<(), ProtocolError>(ProtocolError::MalformedLine)
                &&& d matches Some(m) ==> match classify_spec(m) {
                    Err(e) => r == Err::<(), ProtocolError>(e),
                    Ok(ev) => {
                        &&& final(self)@ == step_spec(old(self)@, old(self).nth_spec(), ev)
                        &&& final(self).nth_spec() == nth_after(old(self).nth_spec(), ev)
                        &&& (r is Err <==> (ev matches ProtocolEvent::Result { id, .. }
                            && last_match(old(self)@, id) < 0))
                        &&& r is Err ==> r == Err::<(), ProtocolError>(
                            ProtocolError::UnmatchedResult,
                        )
                    },
                }
            }),
    {
        let n = line.unicode_len();
        let payload = line.substring_char(5, n);
        proof {
            assert(payload@ =~= line@.skip(5));
        }
        match decode_json_line(payload) {
            None => Err(ProtocolError::MalformedLine),
            Some(m) => {
                match classify(m) {
                    Err(e) => Err(e),
                    Ok(ev) => {
                        let ghost gev = ev;
                        match self.apply(ev) {
                            Ok(()) => {
                                proof {
                                    assert(final(self)@ == step_spec(
                                        old(self)@,
                                        old(self).nth_spec(),
                                        gev,
                                    ));
                                }
                                Ok(())
                            },
                            Err(e) => Err(e),
                        }
                    },
                }
            },
        }
    }
}

/// The running-activity set after a whole sequence of events.
pub open spec fn run_events(ms: Seq<Activity>, nth: u64, evs: Seq<ProtocolEvent>) -> Seq<Activity>
    decreases evs.len(),
{
    if evs.len() == 0 {
        ms
    } else {
        run_events(step_spec(ms, nth, evs[0]), nth_after(nth, evs[0]), evs.drop_first())
    }
}

/// A stream is well-formed from a given state when every `stop` finds a
/// running activity at the moment it is applied.
pub open spec fn well_formed_stream(ms: Seq<Activity>, nth: u64, evs: Seq<ProtocolEvent>) -> bool
    decreases evs.len(),
{
    if evs.len() == 0 {
        true
    } else {
        &&& (evs[0] matches ProtocolEvent::Stop { id } ==> last_match(ms, id) >= 0)
        &&& well_formed_stream(
            step_spec(ms, nth, evs[0]),
            nth_after(nth, evs[0]),
            evs.drop_first(),
        )
    }
}

/// How many `start` events a sequence holds.
pub open spec fn count_starts(evs: Seq<ProtocolEvent>) -> int
    decreases evs.len(),
{
    if evs.len() == 0 {
        0
    } else {
        (if evs[0] is Start {
            1int
        } else {
            0int
        }) + count_starts(evs.drop_first())
    }
}

/// How many `stop` events a sequence holds.
pub open spec fn count_stops(evs: Seq<ProtocolEvent>) -> int
    decreases evs.len(),
{
    if evs.len() == 0 {
        0
    } else {
        (if evs[0] is Stop {
            1int
        } else {
            0int
        }) + count_stops(evs.drop_first())
    }
}

/// Over a well-formed stream the active-activity count is exactly the
/// starting count plus the starts seen minus the stops seen. Since the
/// count is the length of a sequence it can never go below zero.
pub proof fn lemma_run_length(ms: Seq<Activity>, nth: u64, evs: Seq<ProtocolEvent>)
    requires
        well_formed_stream(ms, nth, evs),
    ensures
        run_events(ms, nth, evs).len() == ms.len() + count_starts(evs) - count_stops(evs),
    decreases evs.len(),
{
    if evs.len() == 0 {
    } else {
        if let ProtocolEvent::Stop { id } = evs[0] {
            lemma_last_match_bounds(ms, id);
        }
        lemma_run_length(step_spec(ms, nth, evs[0]), nth_after(nth, evs[0]), evs.drop_first());
    }
}

/// A well-formed stream in which every started id has a matching stop
/// drains the parser completely: the active-activity count returns to
/// exactly zero.
pub proof fn lemma_balanced_stream_drains(nth: u64, evs: Seq<ProtocolEvent>)
    requires
        well_formed_stream(Seq::<Activity>::empty(), nth, evs),
        count_starts(evs) == count_stops(evs),
    ensures
        run_events(Seq::<Activity>::empty(), nth, evs).len() == 0,
{
    lemma_run_length(Seq::<Activity>::empty(), nth, evs);
}

} // verus!
