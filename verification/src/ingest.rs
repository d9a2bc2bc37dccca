//! The inbound requests that feed the notification channel.
//!
//! A publish stores a new record, an edit changes a stored one; either way
//! the record is then serialized and published on the notification channel,
//! from where the bridge fans it out. Storage and channel are collaborators
//! of the caller. The caller takes the steps one by one and reports how each
//! went; this module says which step comes next and, where a step fails,
//! what the requester is told. No step is taken after a failure, so nothing
//! reaches the notification channel unless every earlier step has succeeded.

use vstd::prelude::*;
use vstd::string::*;

verus! {

/// The kind of request.
#[derive(Clone, Copy, Debug, PartialEq, Eq, Structural)]
pub enum Request {
    /// Store a new record and announce it.
    Publish,
    /// Change the text of a stored record and announce it.
    Edit,
    /// Read all stored records.
    List,
}

/// One step of handling a request.
#[derive(Clone, Copy, Debug, PartialEq, Eq, Structural)]
pub enum Step {
    /// Read the record identifier that the request names.
    ParseId,
    /// Update the stored record.
    Update,
    /// Read the updated record back.
    Fetch,
    /// Insert the new record.
    Store,
    /// Read the stored records.
    ReadAll,
    /// Connect to the notification channel.
    Connect,
    /// Serialize the record.
    Encode,
    /// Publish the serialized record on the notification channel.
    Notify,
}

/// How a step went.
#[derive(Clone, Copy, Debug, PartialEq, Eq, Structural)]
pub enum StepOutcome {
    /// The step succeeded.
    Done,
    /// The step ran, but the record it was to update or read is not there.
    Missing,
    /// The step failed.
    Failed,
}

/// What the requester is told when a request is turned down.
#[derive(Clone, Copy, Debug, PartialEq, Eq, Structural)]
pub enum Refusal {
    InvalidId,
    UpdateFailed,
    NotFound,
    NotFoundAfterUpdate,
    FetchFailed,
    StoreFailed,
    ConnectFailed,
    EncodeFailed,
    PublishFailed,
    AnnounceFailed,
    ListFailed,
}

/// Where a request stands after a step.
#[derive(Clone, Copy, Debug, PartialEq, Eq, Structural)]
pub enum Progress {
    /// Take this step next.
    Continue(Step),
    /// Turn the request down.
    Reject(Refusal),
    /// Every step succeeded: answer with the record.
    Accept,
}

/// The first step of a request.
pub open spec fn first_step(request: Request) -> Step {
    match request {
        Request::Publish => Step::Store,
        Request::Edit => Step::ParseId,
        Request::List => Step::ReadAll,
    }
}

/// The step that follows `step` when it succeeds, if any does.
pub open spec fn step_after(step: Step) -> Option<Step> {
    match step {
        Step::ParseId => Some(Step::Update),
        Step::Update => Some(Step::Fetch),
        Step::Fetch => Some(Step::Connect),
        Step::Store => Some(Step::Connect),
        Step::Connect => Some(Step::Encode),
        Step::Encode => Some(Step::Notify),
        Step::Notify => None,
        Step::ReadAll => None,
    }
}

/// What the requester is told when `step` does not succeed.
pub open spec fn refusal_of(request: Request, step: Step, outcome: StepOutcome) -> Refusal {
    match step {
        Step::ParseId => Refusal::InvalidId,
        Step::Update => if outcome == StepOutcome::Missing {
            Refusal::NotFound
        } else {
            Refusal::UpdateFailed
        },
        Step::Fetch => if outcome == StepOutcome::Missing {
            Refusal::NotFoundAfterUpdate
        } else {
            Refusal::FetchFailed
        },
        Step::Store => Refusal::StoreFailed,
        Step::Connect => Refusal::ConnectFailed,
        Step::Encode => Refusal::EncodeFailed,
        Step::Notify => match request {
            Request::Edit => Refusal::AnnounceFailed,
            _ => Refusal::PublishFailed,
        },
        Step::ReadAll => Refusal::ListFailed,
    }
}

/// Where `request` stands once `step` went as `outcome` says.
pub open spec fn progress(request: Request, step: Step, outcome: StepOutcome) -> Progress {
    if outcome == StepOutcome::Done {
        match step_after(step) {
            Some(next) => Progress::Continue(next),
            None => Progress::Accept,
        }
    } else {
        Progress::Reject(refusal_of(request, step, outcome))
    }
}

/// The status code that goes with a refusal.
pub open spec fn status_of(refusal: Refusal) -> u16 {
    match refusal {
        Refusal::InvalidId => 400,
        Refusal::NotFound => 404,
        Refusal::NotFoundAfterUpdate => 404,
        _ => 500,
    }
}

/// The text that goes with a refusal; `id` is the identifier as the request
/// gave it.
pub open spec fn text_of(refusal: Refusal, id: Seq<char>) -> Seq<char> {
    match refusal {
        Refusal::InvalidId => "Invalid message ID: "@ + id,
        Refusal::UpdateFailed => "Failed to update message"@,
        Refusal::NotFound => "Message not found"@,
        Refusal::NotFoundAfterUpdate => "Message not found after update"@,
        Refusal::FetchFailed => "Failed to fetch updated message"@,
        Refusal::StoreFailed => "Failed to save message"@,
        Refusal::ConnectFailed => "Failed to connect to Redis"@,
        Refusal::EncodeFailed => "Failed to serialize message"@,
        Refusal::PublishFailed => "Failed to publish message"@,
        Refusal::AnnounceFailed => "Failed to publish update"@,
        Refusal::ListFailed => "Failed to fetch messages"@,
    }
}

/// The identifier of a stored record: twelve bytes.
#[derive(Clone, Copy, Debug, PartialEq, Eq)]
pub struct RecordId {
    pub bytes: [u8; 12],
}

/// The value of a hexadecimal digit, of either case.
pub open spec fn hex_value(c: char) -> Option<int> {
    if '0' <= c <= '9' {
        Some(c as int - '0' as int)
    } else if 'a' <= c <= 'f' {
        Some(c as int - 'a' as int + 10)
    } else if 'A' <= c <= 'F' {
        Some(c as int - 'A' as int + 10)
    } else {
        None
    }
}

/// Whether `text` writes a record identifier: twenty-four hexadecimal
/// digits.
pub open spec fn is_record_id(text: Seq<char>) -> bool {
    text.len() == 24 && forall|i: int| 0 <= i < 24 ==> hex_value(#[trigger] text[i]) is Some
}

/// The `i`-th byte of the identifier that `text` writes: two digits, the
/// high one first.
pub open spec fn record_id_byte(text: Seq<char>, i: int) -> int {
    hex_value(text[2 * i])->0 * 16 + hex_value(text[2 * i + 1])->0
}

/// Reads a record identifier with `ObjectId::parse_str` of the `bson` crate,
/// as `mongodb` hands it on, and returns its bytes as `ObjectId::bytes`
/// gives them.
///
/// Trusted: `parse_str` decodes its argument as hexadecimal, two digits of
/// either case to the byte, and accepts it if and only if that gives twelve
/// bytes. It fails on an odd number of bytes, on any byte that is no
/// hexadecimal digit, and on any other length.
#[verifier::external_body]
fn object_id_bytes(text: &str) -> (bytes: Option<[u8; 12]>)
    ensures
        bytes is Some <==> is_record_id(text@),
        bytes matches Some(b) ==> forall|i: int|
            0 <= i < 12 ==> (#[trigger] b[i]) as int == record_id_byte(text@, i),
{
    match mongodb::bson::oid::ObjectId::parse_str(text) {
        Ok(id) => Some(id.bytes()),
        Err(_) => None,
    }
}

/// Reads the record identifier that a request names.
pub fn parse_record_id(text: &str) -> (id: Option<RecordId>)
    ensures
        id is Some <==> is_record_id(text@),
        id matches Some(id) ==> forall|i: int|
            0 <= i < 12 ==> (#[trigger] id.bytes[i]) as int == record_id_byte(text@, i),
{
    match object_id_bytes(text) {
        Some(bytes) => Some(RecordId { bytes }),
        None => None,
    }
}

/// The name of the notification channel.
pub fn channel_name() -> (name: &'static str)
    ensures
        name@ == "updates"@,
{
    "updates"
}

/// The first step of a request.
pub fn begin(request: Request) -> (step: Step)
    ensures
        step == first_step(request),
{
    match request {
        Request::Publish => Step::Store,
        Request::Edit => Step::ParseId,
        Request::List => Step::ReadAll,
    }
}

/// Where `request` stands once `step` went as `outcome` says.
pub fn advance(request: Request, step: Step, outcome: StepOutcome) -> (next: Progress)
    ensures
        next == progress(request, step, outcome),
{
    match outcome {
        StepOutcome::Done => match step {
            Step::ParseId => Progress::Continue(Step::Update),
            Step::Update => Progress::Continue(Step::Fetch),
            Step::Fetch => Progress::Continue(Step::Connect),
            Step::Store => Progress::Continue(Step::Connect),
            Step::Connect => Progress::Continue(Step::Encode),
            Step::Encode => Progress::Continue(Step::Notify),
            Step::Notify => Progress::Accept,
            Step::ReadAll => Progress::Accept,
        },
        StepOutcome::Missing => match step {
            Step::Update => Progress::Reject(Refusal::NotFound),
            Step::Fetch => Progress::Reject(Refusal::NotFoundAfterUpdate),
            _ => Progress::Reject(failure_of(request, step)),
        },
        StepOutcome::Failed => Progress::Reject(failure_of(request, step)),
    }
}

fn failure_of(request: Request, step: Step) -> (refusal: Refusal)
    ensures
        refusal == refusal_of(request, step, StepOutcome::Failed),
        step != Step::Update && step != Step::Fetch ==> refusal == refusal_of(
            request,
            step,
            StepOutcome::Missing,
        ),
{
    match step {
        Step::ParseId => Refusal::InvalidId,
        Step::Update => Refusal::UpdateFailed,
        Step::Fetch => Refusal::FetchFailed,
        Step::Store => Refusal::StoreFailed,
        Step::Connect => Refusal::ConnectFailed,
        Step::Encode => Refusal::EncodeFailed,
        Step::Notify => match request {
            Request::Edit => Refusal::AnnounceFailed,
            _ => Refusal::PublishFailed,
        },
        Step::ReadAll => Refusal::ListFailed,
    }
}

/// The status code that goes with a refusal.
pub fn status(refusal: Refusal) -> (code: u16)
    ensures
        code == status_of(refusal),
{
    match refusal {
        Refusal::InvalidId => 400,
        Refusal::NotFound => 404,
        Refusal::NotFoundAfterUpdate => 404,
        _ => 500,
    }
}

/// The text that goes with a refusal; `id` is the identifier as the request
/// gave it.
pub fn text(refusal: Refusal, id: &str) -> (body: String)
    ensures
        body@ == text_of(refusal, id@),
{
    match refusal {
        Refusal::InvalidId => {
            let mut body = String::from_str("Invalid message ID: ");
            body.append(id);
            body
        },
        Refusal::UpdateFailed => String::from_str("Failed to update message"),
        Refusal::NotFound => String::from_str("Message not found"),
        Refusal::NotFoundAfterUpdate => String::from_str("Message not found after update"),
        Refusal::FetchFailed => String::from_str("Failed to fetch updated message"),
        Refusal::StoreFailed => String::from_str("Failed to save message"),
        Refusal::ConnectFailed => String::from_str("Failed to connect to Redis"),
        Refusal::EncodeFailed => String::from_str("Failed to serialize message"),
        Refusal::PublishFailed => String::from_str("Failed to publish message"),
        Refusal::AnnounceFailed => String::from_str("Failed to publish update"),
        Refusal::ListFailed => String::from_str("Failed to fetch messages"),
    }
}

/// The steps taken when the outcomes come in as `outcomes`, starting at
/// `step`: the request goes on while steps succeed and stops at the first
/// that does not.
pub open spec fn steps_taken(step: Step, outcomes: Seq<StepOutcome>) -> Seq<Step>
    decreases outcomes.len(),
{
    if outcomes.len() == 0 {
        seq![step]
    } else if outcomes[0] != StepOutcome::Done {
        seq![step]
    } else {
        match step_after(step) {
            Some(next) => seq![step] + steps_taken(next, outcomes.drop_first()),
            None => seq![step],
        }
    }
}

/// Nothing is published after a failure: if the steps taken include the
/// publication on the notification channel at place `i`, every step before
/// it succeeded.
pub proof fn lemma_no_partial_publish(step: Step, outcomes: Seq<StepOutcome>, i: int)
    requires
        0 <= i < steps_taken(step, outcomes).len(),
        steps_taken(step, outcomes)[i] == Step::Notify,
    ensures
        i <= outcomes.len(),
        forall|j: int| 0 <= j < i ==> #[trigger] outcomes[j] == StepOutcome::Done,
    decreases outcomes.len(),
{
    if i > 0 {
        let next = step_after(step)->0;
        let rest = outcomes.drop_first();
        assert(steps_taken(step, outcomes) == seq![step] + steps_taken(next, rest));
        assert(steps_taken(next, rest)[i - 1] == Step::Notify);
        lemma_no_partial_publish(next, rest, i - 1);
        assert forall|j: int| 0 <= j < i implies #[trigger] outcomes[j] == StepOutcome::Done by {
            if j > 0 {
                assert(rest[j - 1] == outcomes[j]);
            }
        }
    }
}

} // verus!
