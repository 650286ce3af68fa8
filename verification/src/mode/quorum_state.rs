//! The state of the quorum mode and its record.

use crate::codec::{
    optional, optional_json, read_optional, read_required, readable_deeper, required,
    write_optional, Codec,
};
use crate::json::{
    distinct_keys, is_record, member_at, readable, variant_of, write_text, JsonView, Members,
};
use crate::json_text::{read_variant_text, Fields};
use crate::text::same;
use crate::text_map::TextMap;
use vstd::prelude::*;

verus! {

/// A vote.
#[derive(Debug, Clone, Copy, PartialEq, Eq, Structural)]
pub enum BallotChoice {
    Approve,
    Reject,
    Abstain,
}

impl DeepView for BallotChoice {
    type V = BallotChoice;

    open spec fn deep_view(&self) -> BallotChoice {
        *self
    }
}

impl BallotChoice {
    /// The name that records the value.
    pub open spec fn name(self) -> Seq<char> {
        match self {
            BallotChoice::Approve => "Approve"@,
            BallotChoice::Reject => "Reject"@,
            BallotChoice::Abstain => "Abstain"@,
        }
    }
}

impl Codec for BallotChoice {
    open spec fn json(v: BallotChoice) -> JsonView {
        JsonView::Text(v.name())
    }

    open spec fn from_view(j: JsonView) -> Option<BallotChoice> {
        match variant_of(j) {
            Some(name) => 
            if name == "Approve"@ {
                Some(BallotChoice::Approve)
            } else if name == "Reject"@ {
                Some(BallotChoice::Reject)
            } else if name == "Abstain"@ {
                Some(BallotChoice::Abstain)
            } else {
                None
            },
            None => None,
        }
    }

    open spec fn depth() -> nat {
        0
    }

    open spec fn valid(v: BallotChoice) -> bool {
        true
    }

    proof fn reads_back(v: BallotChoice) {
        reveal_strlit("Approve");
        reveal_strlit("Reject");
        reveal_strlit("Abstain");
        assert("Approve"@[1] != "Abstain"@[1]);
    }

    fn to_json(&self) -> (r: serde_json::Value) {
        match self {
            BallotChoice::Approve => write_text("Approve"),
            BallotChoice::Reject => write_text("Reject"),
            BallotChoice::Abstain => write_text("Abstain"),
        }
    }

    fn from_text(bytes: &[u8]) -> (r: Option<Self>) {
        match read_variant_text(bytes) {
            Some(name) => {
                if same(name.as_str(), "Approve") {
                    Some(BallotChoice::Approve)
                } else if same(name.as_str(), "Reject") {
                    Some(BallotChoice::Reject)
                } else if same(name.as_str(), "Abstain") {
                    Some(BallotChoice::Abstain)
                } else {
                    None
                }
            },
            None => None,
        }
    }
}

/// The request on record.
#[derive(Clone, Debug)]
pub struct ApprovalRequestRecord {
    pub request_id: String,
    pub action: String,
    pub summary: String,
    pub details: Vec<u8>,
    pub required_approvals: u32,
    pub requested_by: String,
}

/// What a [`ApprovalRequestRecord`] holds.
#[verifier::ext_equal]
pub struct ApprovalRequestRecordView {
    pub request_id: Seq<char>,
    pub action: Seq<char>,
    pub summary: Seq<char>,
    pub details: Seq<u8>,
    pub required_approvals: u32,
    pub requested_by: Seq<char>,
}

impl DeepView for ApprovalRequestRecord {
    type V = ApprovalRequestRecordView;

    open spec fn deep_view(&self) -> ApprovalRequestRecordView {
        ApprovalRequestRecordView {
            request_id: self.request_id@,
            action: self.action@,
            summary: self.summary@,
            details: self.details.deep_view(),
            required_approvals: self.required_approvals,
            requested_by: self.requested_by@,
        }
    }
}

impl ApprovalRequestRecord {
    /// The members of the object that records the value.
    pub open spec fn members(v: ApprovalRequestRecordView) -> Seq<(Seq<char>, JsonView)> {
        seq![
            ("request_id"@, <String as Codec>::json(v.request_id)),
            ("action"@, <String as Codec>::json(v.action)),
            ("summary"@, <String as Codec>::json(v.summary)),
            ("details"@, <Vec<u8> as Codec>::json(v.details)),
            ("required_approvals"@, <u32 as Codec>::json(v.required_approvals)),
            ("requested_by"@, <String as Codec>::json(v.requested_by)),
        ]
    }

    proof fn members_distinct(v: ApprovalRequestRecordView)
        ensures
            distinct_keys(Self::members(v)),
    {
        reveal_strlit("request_id");
        reveal_strlit("action");
        reveal_strlit("summary");
        reveal_strlit("details");
        reveal_strlit("required_approvals");
        reveal_strlit("requested_by");
        assert("request_id"@.len() == 10);
        assert("action"@.len() == 6);
        assert("summary"@.len() == 7);
        assert("details"@.len() == 7);
        assert("required_approvals"@.len() == 18);
        assert("requested_by"@.len() == 12);
        assert("summary"@[0] != "details"@[0]);
    }
}

impl Codec for ApprovalRequestRecord {
    open spec fn json(v: ApprovalRequestRecordView) -> JsonView {
        JsonView::Object(ApprovalRequestRecord::members(v))
    }

    open spec fn from_view(j: JsonView) -> Option<ApprovalRequestRecordView> {
        let request_id = required::<String>(j, 0, "request_id"@);
        let action = required::<String>(j, 1, "action"@);
        let summary = required::<String>(j, 2, "summary"@);
        let details = required::<Vec<u8>>(j, 3, "details"@);
        let required_approvals = required::<u32>(j, 4, "required_approvals"@);
        let requested_by = required::<String>(j, 5, "requested_by"@);
        if is_record(j, 6) && request_id is Some && action is Some && summary is Some
            && details is Some && required_approvals is Some && requested_by is Some {
            Some(
                ApprovalRequestRecordView {
                    request_id: request_id->0,
                    action: action->0,
                    summary: summary->0,
                    details: details->0,
                    required_approvals: required_approvals->0,
                    requested_by: requested_by->0,
                },
            )
        } else {
            None
        }
    }

    open spec fn depth() -> nat {
        2
    }

    open spec fn valid(v: ApprovalRequestRecordView) -> bool {
        &&& <String as Codec>::valid(v.request_id)
        &&& <String as Codec>::valid(v.action)
        &&& <String as Codec>::valid(v.summary)
        &&& <Vec<u8> as Codec>::valid(v.details)
        &&& <u32 as Codec>::valid(v.required_approvals)
        &&& <String as Codec>::valid(v.requested_by)
    }

    proof fn reads_back(v: ApprovalRequestRecordView) {
        let m = ApprovalRequestRecord::members(v);
        ApprovalRequestRecord::members_distinct(v);
        member_at(m, 0);
        <String as Codec>::reads_back(v.request_id);
        readable_deeper(m[0].1, <String as Codec>::depth(), 1);
        member_at(m, 1);
        <String as Codec>::reads_back(v.action);
        readable_deeper(m[1].1, <String as Codec>::depth(), 1);
        member_at(m, 2);
        <String as Codec>::reads_back(v.summary);
        readable_deeper(m[2].1, <String as Codec>::depth(), 1);
        member_at(m, 3);
        <Vec<u8> as Codec>::reads_back(v.details);
        readable_deeper(m[3].1, <Vec<u8> as Codec>::depth(), 1);
        member_at(m, 4);
        <u32 as Codec>::reads_back(v.required_approvals);
        readable_deeper(m[4].1, <u32 as Codec>::depth(), 1);
        member_at(m, 5);
        <String as Codec>::reads_back(v.requested_by);
        readable_deeper(m[5].1, <String as Codec>::depth(), 1);
    }

    fn to_json(&self) -> (r: serde_json::Value) {
        let members: Members = Members::new()
            .with("request_id", self.request_id.to_json())
            .with("action", self.action.to_json())
            .with("summary", self.summary.to_json())
            .with("details", self.details.to_json())
            .with("required_approvals", self.required_approvals.to_json())
            .with("requested_by", self.requested_by.to_json());
        assert(members@ =~= ApprovalRequestRecord::members(self.deep_view()));
        proof {
            ApprovalRequestRecord::members_distinct(self.deep_view());
        }
        members.finish()
    }

    fn from_text(bytes: &[u8]) -> (r: Option<Self>) {
        let record: Fields<'_> = match Fields::read(bytes, 6) {
            Some(record) => record,
            None => return None,
        };
        let request_id: String = match read_required::<String>(&record, 0, "request_id") {
            Some(x) => x,
            None => return None,
        };
        let action: String = match read_required::<String>(&record, 1, "action") {
            Some(x) => x,
            None => return None,
        };
        let summary: String = match read_required::<String>(&record, 2, "summary") {
            Some(x) => x,
            None => return None,
        };
        let details: Vec<u8> = match read_required::<Vec<u8>>(&record, 3, "details") {
            Some(x) => x,
            None => return None,
        };
        let required_approvals: u32 = match read_required::<u32>(&record, 4, "required_approvals") {
            Some(x) => x,
            None => return None,
        };
        let requested_by: String = match read_required::<String>(&record, 5, "requested_by") {
            Some(x) => x,
            None => return None,
        };
        Some(
            ApprovalRequestRecord {
                request_id,
                action,
                summary,
                details,
                required_approvals,
                requested_by,
            },
        )
    }
}

/// A ballot on record.
#[derive(Clone, Debug)]
pub struct BallotRecord {
    pub request_id: String,
    pub choice: BallotChoice,
    pub sender: String,
    pub reason: String,
}

/// What a [`BallotRecord`] holds.
#[verifier::ext_equal]
pub struct BallotRecordView {
    pub request_id: Seq<char>,
    pub choice: BallotChoice,
    pub sender: Seq<char>,
    pub reason: Seq<char>,
}

impl DeepView for BallotRecord {
    type V = BallotRecordView;

    open spec fn deep_view(&self) -> BallotRecordView {
        BallotRecordView {
            request_id: self.request_id@,
            choice: self.choice.deep_view(),
            sender: self.sender@,
            reason: self.reason@,
        }
    }
}

impl BallotRecord {
    /// The members of the object that records the value.
    pub open spec fn members(v: BallotRecordView) -> Seq<(Seq<char>, JsonView)> {
        seq![
            ("request_id"@, <String as Codec>::json(v.request_id)),
            ("choice"@, <BallotChoice as Codec>::json(v.choice)),
            ("sender"@, <String as Codec>::json(v.sender)),
            ("reason"@, <String as Codec>::json(v.reason)),
        ]
    }

    proof fn members_distinct(v: BallotRecordView)
        ensures
            distinct_keys(Self::members(v)),
    {
        reveal_strlit("request_id");
        reveal_strlit("choice");
        reveal_strlit("sender");
        reveal_strlit("reason");
        assert("request_id"@.len() == 10);
        assert("choice"@.len() == 6);
        assert("sender"@.len() == 6);
        assert("reason"@.len() == 6);
        assert("choice"@[0] != "sender"@[0]);
        assert("choice"@[0] != "reason"@[0]);
        assert("sender"@[0] != "reason"@[0]);
    }
}

impl Codec for BallotRecord {
    open spec fn json(v: BallotRecordView) -> JsonView {
        JsonView::Object(BallotRecord::members(v))
    }

    open spec fn from_view(j: JsonView) -> Option<BallotRecordView> {
        let request_id = required::<String>(j, 0, "request_id"@);
        let choice = required::<BallotChoice>(j, 1, "choice"@);
        let sender = required::<String>(j, 2, "sender"@);
        let reason = required::<String>(j, 3, "reason"@);
        if is_record(j, 4) && request_id is Some && choice is Some && sender is Some
            && reason is Some {
            Some(
                BallotRecordView {
                    request_id: request_id->0,
                    choice: choice->0,
                    sender: sender->0,
                    reason: reason->0,
                },
            )
        } else {
            None
        }
    }

    open spec fn depth() -> nat {
        1
    }

    open spec fn valid(v: BallotRecordView) -> bool {
        &&& <String as Codec>::valid(v.request_id)
        &&& <BallotChoice as Codec>::valid(v.choice)
        &&& <String as Codec>::valid(v.sender)
        &&& <String as Codec>::valid(v.reason)
    }

    proof fn reads_back(v: BallotRecordView) {
        let m = BallotRecord::members(v);
        BallotRecord::members_distinct(v);
        member_at(m, 0);
        <String as Codec>::reads_back(v.request_id);
        readable_deeper(m[0].1, <String as Codec>::depth(), 0);
        member_at(m, 1);
        <BallotChoice as Codec>::reads_back(v.choice);
        readable_deeper(m[1].1, <BallotChoice as Codec>::depth(), 0);
        member_at(m, 2);
        <String as Codec>::reads_back(v.sender);
        readable_deeper(m[2].1, <String as Codec>::depth(), 0);
        member_at(m, 3);
        <String as Codec>::reads_back(v.reason);
        readable_deeper(m[3].1, <String as Codec>::depth(), 0);
    }

    fn to_json(&self) -> (r: serde_json::Value) {
        let members: Members = Members::new()
            .with("request_id", self.request_id.to_json())
            .with("choice", self.choice.to_json())
            .with("sender", self.sender.to_json())
            .with("reason", self.reason.to_json());
        assert(members@ =~= BallotRecord::members(self.deep_view()));
        proof {
            BallotRecord::members_distinct(self.deep_view());
        }
        members.finish()
    }

    fn from_text(bytes: &[u8]) -> (r: Option<Self>) {
        let record: Fields<'_> = match Fields::read(bytes, 4) {
            Some(record) => record,
            None => return None,
        };
        let request_id: String = match read_required::<String>(&record, 0, "request_id") {
            Some(x) => x,
            None => return None,
        };
        let choice: BallotChoice = match read_required::<BallotChoice>(&record, 1, "choice") {
            Some(x) => x,
            None => return None,
        };
        let sender: String = match read_required::<String>(&record, 2, "sender") {
            Some(x) => x,
            None => return None,
        };
        let reason: String = match read_required::<String>(&record, 3, "reason") {
            Some(x) => x,
            None => return None,
        };
        Some(
            BallotRecord {
                request_id,
                choice,
                sender,
                reason,
            },
        )
    }
}

/// The state of a quorum session: the request, and the ballots by voter.
#[derive(Clone, Debug)]
pub struct QuorumState {
    pub request: Option<ApprovalRequestRecord>,
    pub ballots: TextMap<BallotRecord>,
}

/// What a [`QuorumState`] holds.
#[verifier::ext_equal]
pub struct QuorumStateView {
    pub request: Option<ApprovalRequestRecordView>,
    pub ballots: Map<Seq<char>, BallotRecordView>,
}

impl DeepView for QuorumState {
    type V = QuorumStateView;

    open spec fn deep_view(&self) -> QuorumStateView {
        QuorumStateView {
            request: self.request.deep_view(),
            ballots: self.ballots.deep_view(),
        }
    }
}

impl Default for QuorumState {
    fn default() -> (r: Self)
        ensures
            r.deep_view() == (QuorumStateView { request: None, ballots: Map::<Seq<char>, BallotRecordView>::empty() }),
    {
        QuorumState { request: None, ballots: TextMap::new() }
    }
}

impl QuorumState {
    /// The members of the object that records the value.
    pub open spec fn members(v: QuorumStateView) -> Seq<(Seq<char>, JsonView)> {
        seq![
            ("request"@, optional_json::<ApprovalRequestRecord>(v.request)),
            ("ballots"@, <TextMap<BallotRecord> as Codec>::json(v.ballots)),
        ]
    }

    proof fn members_distinct(v: QuorumStateView)
        ensures
            distinct_keys(Self::members(v)),
    {
        reveal_strlit("request");
        reveal_strlit("ballots");
        assert("request"@.len() == 7);
        assert("ballots"@.len() == 7);
        assert("request"@[0] != "ballots"@[0]);
    }
}

impl Codec for QuorumState {
    open spec fn json(v: QuorumStateView) -> JsonView {
        JsonView::Object(QuorumState::members(v))
    }

    open spec fn from_view(j: JsonView) -> Option<QuorumStateView> {
        let request = optional::<ApprovalRequestRecord>(j, 0, "request"@);
        let ballots = required::<TextMap<BallotRecord>>(j, 1, "ballots"@);
        if is_record(j, 2) && request is Some && ballots is Some {
            Some(
                QuorumStateView {
                    request: request->0,
                    ballots: ballots->0,
                },
            )
        } else {
            None
        }
    }

    open spec fn depth() -> nat {
        3
    }

    open spec fn valid(v: QuorumStateView) -> bool {
        &&& v.request is Some ==> <ApprovalRequestRecord as Codec>::valid(v.request->0)
        &&& <TextMap<BallotRecord> as Codec>::valid(v.ballots)
    }

    proof fn reads_back(v: QuorumStateView) {
        let m = QuorumState::members(v);
        QuorumState::members_distinct(v);
        member_at(m, 0);
        if v.request is Some {
            <ApprovalRequestRecord as Codec>::reads_back(v.request->0);
            readable_deeper(m[0].1, <ApprovalRequestRecord as Codec>::depth(), 2);
        }
        assert(readable(m[0].1, 2));
        member_at(m, 1);
        <TextMap<BallotRecord> as Codec>::reads_back(v.ballots);
        readable_deeper(m[1].1, <TextMap<BallotRecord> as Codec>::depth(), 2);
    }

    fn to_json(&self) -> (r: serde_json::Value) {
        let members: Members = Members::new()
            .with("request", write_optional(&self.request))
            .with("ballots", self.ballots.to_json());
        assert(members@ =~= QuorumState::members(self.deep_view()));
        proof {
            QuorumState::members_distinct(self.deep_view());
        }
        members.finish()
    }

    fn from_text(bytes: &[u8]) -> (r: Option<Self>) {
        let record: Fields<'_> = match Fields::read(bytes, 2) {
            Some(record) => record,
            None => return None,
        };
        let request: Option<ApprovalRequestRecord> = match read_optional::<ApprovalRequestRecord>(&record, 0, "request") {
            Some(x) => x,
            None => return None,
        };
        let ballots: TextMap<BallotRecord> = match read_required::<TextMap<BallotRecord>>(&record, 1, "ballots") {
            Some(x) => x,
            None => return None,
        };
        Some(
            QuorumState {
                request,
                ballots,
            },
        )
    }
}

} // verus!
