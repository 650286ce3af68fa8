//! The modes that the runtime knows, by name and by description.

use crate::pb::envelope::{ModeDescriptor, ModeDescriptorView};
use crate::text_map::TextMap;
use vstd::prelude::*;

verus! {

/// The names of the standard modes.
pub const STANDARD_MODE_NAMES: [&'static str; 5] = [
    "macp.mode.decision.v1",
    "macp.mode.proposal.v1",
    "macp.mode.task.v1",
    "macp.mode.handoff.v1",
    "macp.mode.quorum.v1",
];

/// The names of the built-in modes that are no standard modes.
pub const EXTENSION_MODE_NAMES: [&'static str; 1] = ["ext.multi_round.v1"];

/// The names of the standard modes.
pub open spec fn standard_names() -> Seq<Seq<char>> {
    seq![
        "macp.mode.decision.v1"@,
        "macp.mode.proposal.v1"@,
        "macp.mode.task.v1"@,
        "macp.mode.handoff.v1"@,
        "macp.mode.quorum.v1"@,
    ]
}

/// The names of the built-in modes that are no standard modes.
pub open spec fn extension_names() -> Seq<Seq<char>> {
    seq!["ext.multi_round.v1"@]
}

/// What the texts hold.
pub open spec fn literals(list: Seq<&str>) -> Seq<Seq<char>> {
    Seq::new(list.len(), |i: int| list[i]@)
}

/// The description of a mode of version 1.0.0 that ends with a commitment and has
/// its messages in the common protobuf schema.
pub open spec fn described(
    mode: Seq<char>,
    title: Seq<char>,
    description: Seq<char>,
    determinism_class: Seq<char>,
    participant_model: Seq<char>,
    message_types: Seq<Seq<char>>,
) -> ModeDescriptorView {
    ModeDescriptorView {
        mode,
        mode_version: "1.0.0"@,
        title,
        description,
        determinism_class,
        participant_model,
        message_types,
        terminal_message_types: seq!["Commitment"@],
        schema_uris: Map::empty().insert(
            "protobuf"@,
            "buf.build/multiagentcoordinationprotocol/macp"@,
        ),
    }
}

/// The descriptions of the standard modes.
pub open spec fn standard_descriptions() -> Seq<ModeDescriptorView> {
    seq![
        described(
            "macp.mode.decision.v1"@,
            "Decision Mode"@,
            "Structured decision making with proposals, evaluations, objections, votes, and a terminal Commitment."@,
            "semantic-deterministic"@,
            "declared"@,
            seq![
                "SessionStart"@,
                "Proposal"@,
                "Evaluation"@,
                "Objection"@,
                "Vote"@,
                "Commitment"@,
            ],
        ),
        described(
            "macp.mode.proposal.v1"@,
            "Proposal Mode"@,
            "Negotiation with proposals, counterproposals, accepts, rejects, withdrawals, and a terminal Commitment."@,
            "semantic-deterministic"@,
            "peer"@,
            seq![
                "SessionStart"@,
                "Proposal"@,
                "CounterProposal"@,
                "Accept"@,
                "Reject"@,
                "Withdraw"@,
                "Commitment"@,
            ],
        ),
        described(
            "macp.mode.task.v1"@,
            "Task Mode"@,
            "One bounded delegated task with assignee responses, progress, completion/failure reports, and a terminal Commitment."@,
            "structural-only"@,
            "orchestrated"@,
            seq![
                "SessionStart"@,
                "TaskRequest"@,
                "TaskAccept"@,
                "TaskReject"@,
                "TaskUpdate"@,
                "TaskComplete"@,
                "TaskFail"@,
                "Commitment"@,
            ],
        ),
        described(
            "macp.mode.handoff.v1"@,
            "Handoff Mode"@,
            "Scoped responsibility transfer with handoff offers, context, target responses, and a terminal Commitment."@,
            "context-frozen"@,
            "delegated"@,
            seq![
                "SessionStart"@,
                "HandoffOffer"@,
                "HandoffContext"@,
                "HandoffAccept"@,
                "HandoffDecline"@,
                "Commitment"@,
            ],
        ),
        described(
            "macp.mode.quorum.v1"@,
            "Quorum Mode"@,
            "Threshold approval with one approval request, participant ballots, and a terminal Commitment."@,
            "semantic-deterministic"@,
            "quorum"@,
            seq![
                "SessionStart"@,
                "ApprovalRequest"@,
                "Approve"@,
                "Reject"@,
                "Abstain"@,
                "Commitment"@,
            ],
        ),
    ]
}

/// The descriptions of the built-in modes that are no standard modes.
pub open spec fn extension_descriptions() -> Seq<ModeDescriptorView> {
    seq![
        described(
            "ext.multi_round.v1"@,
            "Multi-Round Mode"@,
            "Iterative convergence through multiple contribution rounds until all participants agree, with a terminal Commitment."@,
            "semantic-deterministic"@,
            "peer"@,
            seq![
                "SessionStart"@,
                "Contribute"@,
                "Commitment"@,
            ],
        ),
    ]
}

/// The names of the standard modes.
pub fn standard_mode_names() -> (r: &'static [&'static str])
    ensures
        literals(r@) == standard_names(),
{
    let r: &'static [&'static str] = &STANDARD_MODE_NAMES;
    assert(literals(r@) =~= standard_names());
    r
}

/// The names of the built-in modes that are no standard modes.
pub fn extension_mode_names() -> (r: &'static [&'static str])
    ensures
        literals(r@) == extension_names(),
{
    let r: &'static [&'static str] = &EXTENSION_MODE_NAMES;
    assert(literals(r@) =~= extension_names());
    r
}

fn list_of(items: &[&str]) -> (r: Vec<String>)
    ensures
        r.deep_view() == literals(items@),
{
    let mut r: Vec<String> = Vec::new();
    let mut i: usize = 0;
    while i < items.len()
        invariant
            i <= items@.len(),
            r@.len() == i,
            forall|j: int| 0 <= j < i ==> (#[trigger] r@[j])@ == items@[j]@,
        decreases items@.len() - i,
    {
        r.push(items[i].to_owned());
        i = i + 1;
    }
    assert(r.deep_view() =~= literals(items@));
    r
}

fn describe(
    mode: &str,
    title: &str,
    description: &str,
    determinism_class: &str,
    participant_model: &str,
    message_types: &[&str],
) -> (r: ModeDescriptor)
    ensures
        r.deep_view() == described(
            mode@,
            title@,
            description@,
            determinism_class@,
            participant_model@,
            literals(message_types@),
        ),
{
    let mut schema_uris: TextMap<String> = TextMap::new();
    schema_uris.insert(
        "protobuf".to_owned(),
        "buf.build/multiagentcoordinationprotocol/macp".to_owned(),
    );
    let terminal: [&str; 1] = ["Commitment"];
    assert(literals(terminal@) =~= seq!["Commitment"@]);
    ModeDescriptor {
        mode: mode.to_owned(),
        mode_version: "1.0.0".to_owned(),
        title: title.to_owned(),
        description: description.to_owned(),
        determinism_class: determinism_class.to_owned(),
        participant_model: participant_model.to_owned(),
        message_types: list_of(message_types),
        terminal_message_types: list_of(&terminal),
        schema_uris,
    }
}

fn decision_descriptor() -> (r: ModeDescriptor)
    ensures
        r.deep_view() == standard_descriptions()[0],
{
    let message_types: [&str; 6] = [
        "SessionStart",
        "Proposal",
        "Evaluation",
        "Objection",
        "Vote",
        "Commitment",
    ];
    assert(literals(message_types@) =~= standard_descriptions()[0].message_types);
    describe(
        "macp.mode.decision.v1",
        "Decision Mode",
        "Structured decision making with proposals, evaluations, objections, votes, and a terminal Commitment.",
        "semantic-deterministic",
        "declared",
        &message_types,
    )
}

fn proposal_descriptor() -> (r: ModeDescriptor)
    ensures
        r.deep_view() == standard_descriptions()[1],
{
    let message_types: [&str; 7] = [
        "SessionStart",
        "Proposal",
        "CounterProposal",
        "Accept",
        "Reject",
        "Withdraw",
        "Commitment",
    ];
    assert(literals(message_types@) =~= standard_descriptions()[1].message_types);
    describe(
        "macp.mode.proposal.v1",
        "Proposal Mode",
        "Negotiation with proposals, counterproposals, accepts, rejects, withdrawals, and a terminal Commitment.",
        "semantic-deterministic",
        "peer",
        &message_types,
    )
}

fn task_descriptor() -> (r: ModeDescriptor)
    ensures
        r.deep_view() == standard_descriptions()[2],
{
    let message_types: [&str; 8] = [
        "SessionStart",
        "TaskRequest",
        "TaskAccept",
        "TaskReject",
        "TaskUpdate",
        "TaskComplete",
        "TaskFail",
        "Commitment",
    ];
    assert(literals(message_types@) =~= standard_descriptions()[2].message_types);
    describe(
        "macp.mode.task.v1",
        "Task Mode",
        "One bounded delegated task with assignee responses, progress, completion/failure reports, and a terminal Commitment.",
        "structural-only",
        "orchestrated",
        &message_types,
    )
}

fn handoff_descriptor() -> (r: ModeDescriptor)
    ensures
        r.deep_view() == standard_descriptions()[3],
{
    let message_types: [&str; 6] = [
        "SessionStart",
        "HandoffOffer",
        "HandoffContext",
        "HandoffAccept",
        "HandoffDecline",
        "Commitment",
    ];
    assert(literals(message_types@) =~= standard_descriptions()[3].message_types);
    describe(
        "macp.mode.handoff.v1",
        "Handoff Mode",
        "Scoped responsibility transfer with handoff offers, context, target responses, and a terminal Commitment.",
        "context-frozen",
        "delegated",
        &message_types,
    )
}

fn quorum_descriptor() -> (r: ModeDescriptor)
    ensures
        r.deep_view() == standard_descriptions()[4],
{
    let message_types: [&str; 6] = [
        "SessionStart",
        "ApprovalRequest",
        "Approve",
        "Reject",
        "Abstain",
        "Commitment",
    ];
    assert(literals(message_types@) =~= standard_descriptions()[4].message_types);
    describe(
        "macp.mode.quorum.v1",
        "Quorum Mode",
        "Threshold approval with one approval request, participant ballots, and a terminal Commitment.",
        "semantic-deterministic",
        "quorum",
        &message_types,
    )
}

fn multi_round_descriptor() -> (r: ModeDescriptor)
    ensures
        r.deep_view() == extension_descriptions()[0],
{
    let message_types: [&str; 3] = [
        "SessionStart",
        "Contribute",
        "Commitment",
    ];
    assert(literals(message_types@) =~= extension_descriptions()[0].message_types);
    describe(
        "ext.multi_round.v1",
        "Multi-Round Mode",
        "Iterative convergence through multiple contribution rounds until all participants agree, with a terminal Commitment.",
        "semantic-deterministic",
        "peer",
        &message_types,
    )
}

/// What the descriptors hold.
pub open spec fn descriptions(list: Seq<ModeDescriptor>) -> Seq<ModeDescriptorView> {
    Seq::new(list.len(), |i: int| list[i].deep_view())
}

/// The descriptions of the standard modes.
pub fn standard_mode_descriptors() -> (r: Vec<ModeDescriptor>)
    ensures
        descriptions(r@) == standard_descriptions(),
{
    let r: Vec<ModeDescriptor> = vec![
        decision_descriptor(),
        proposal_descriptor(),
        task_descriptor(),
        handoff_descriptor(),
        quorum_descriptor(),
    ];
    assert(descriptions(r@) =~= standard_descriptions());
    r
}

/// The descriptions of the built-in modes that are no standard modes.
pub fn extension_mode_descriptors() -> (r: Vec<ModeDescriptor>)
    ensures
        descriptions(r@) == extension_descriptions(),
{
    let r: Vec<ModeDescriptor> = vec![multi_round_descriptor()];
    assert(descriptions(r@) =~= extension_descriptions());
    r
}

/// The descriptions of all built-in modes, the standard ones first.
pub fn all_mode_descriptors() -> (r: Vec<ModeDescriptor>)
    ensures
        descriptions(r@) == standard_descriptions() + extension_descriptions(),
{
    let mut all: Vec<ModeDescriptor> = standard_mode_descriptors();
    let mut extensions: Vec<ModeDescriptor> = extension_mode_descriptors();
    let ghost first = all@;
    let ghost second = extensions@;
    all.append(&mut extensions);
    assert(all@ == first + second);
    assert(descriptions(all@) =~= descriptions(first) + descriptions(second));
    all
}

/// The names and the descriptions of the built-in modes go together, in the same
/// order.
pub proof fn names_match_descriptions(i: int)
    requires
        0 <= i < (standard_names() + extension_names()).len(),
    ensures
        (standard_names() + extension_names()).len() == (standard_descriptions()
            + extension_descriptions()).len(),
        (standard_descriptions() + extension_descriptions())[i].mode == (standard_names()
            + extension_names())[i],
{
}

/// Every message type that ends a session is one of the message types of its
/// mode.
pub proof fn terminal_messages_belong(i: int, k: int)
    requires
        0 <= i < (standard_descriptions() + extension_descriptions()).len(),
        0 <= k < (standard_descriptions()
            + extension_descriptions())[i].terminal_message_types.len(),
    ensures
        (standard_descriptions() + extension_descriptions())[i].message_types.contains(
            (standard_descriptions() + extension_descriptions())[i].terminal_message_types[k],
        ),
{
    let d = (standard_descriptions() + extension_descriptions())[i];
    assert(d.message_types[d.message_types.len() - 1] == "Commitment"@);
}

/// Every built-in mode is of version 1.0.0, has its sessions opened by one type of
/// message and ended by another, and has its messages in one schema.
pub proof fn sessions_have_a_beginning_and_an_end(i: int)
    requires
        0 <= i < (standard_descriptions() + extension_descriptions()).len(),
    ensures
        ({
            let d = (standard_descriptions() + extension_descriptions())[i];
            &&& d.mode_version == "1.0.0"@
            &&& d.message_types[0] == "SessionStart"@
            &&& d.message_types.last() == "Commitment"@
            &&& d.terminal_message_types.len() == 1
            &&& d.terminal_message_types[0] == "Commitment"@
            &&& d.schema_uris.dom() == Set::empty().insert("protobuf"@)
        }),
{
    let d = (standard_descriptions() + extension_descriptions())[i];
    assert(d.schema_uris.dom() =~= Set::empty().insert("protobuf"@));
}

} // verus!
