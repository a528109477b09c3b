//! The dialogue with qemu: asking for the tasks of its vCPUs.
//!
//! The caller reads and writes the lines. A [`QmpClient`] says which
//! [`QmpAction`] comes next, and takes the [`Reply`] to it.
use crate::error::{Error, ErrorView};
use crate::exchange::{Reply, ReplyView};
use crate::json_value::{dump_pair, has_readable_numbers, parse_json, Json, JsonView};
use crate::topology::{transform_vcpu_info, Topology, VcpuId};
use vstd::prelude::*;

verus! {

/// Work on the connection to qemu.
#[derive(Debug)]
pub enum QmpAction {
    /// Read a line, with its line feed.
    ReadLine,
    /// Write a text, all of it.
    Write(String),
    /// Hand on what was written.
    Flush,
}

/// What an action asks for.
pub enum QmpActionView {
    ReadLine,
    Write(Seq<char>),
    Flush,
}

impl View for QmpAction {
    type V = QmpActionView;

    open spec fn view(&self) -> QmpActionView {
        match self {
            QmpAction::ReadLine => QmpActionView::ReadLine,
            QmpAction::Write(text) => QmpActionView::Write(text@),
            QmpAction::Flush => QmpActionView::Flush,
        }
    }
}

/// A command for qemu.
#[derive(Clone, Copy, PartialEq, Eq, Debug, Structural)]
pub enum Command {
    /// Settle the capabilities of both sides.
    Negotiate,
    /// List the vCPUs.
    QueryCpus,
}

/// The text of a command.
pub open spec fn command_text(command: Command) -> Seq<char> {
    match command {
        Command::Negotiate => crate::json_value::pair_notation("execute"@, "qmp_capabilities"@),
        Command::QueryCpus => crate::json_value::pair_notation("execute"@, "query-cpus-fast"@),
    }
}

/// Writes a command.
fn write_command(command: Command) -> (r: String)
    ensures
        r@ == command_text(command),
{
    proof {
        reveal_strlit("execute");
        reveal_strlit("qmp_capabilities");
        reveal_strlit("query-cpus-fast");
    }
    match command {
        Command::Negotiate => dump_pair("execute", "qmp_capabilities"),
        Command::QueryCpus => dump_pair("execute", "query-cpus-fast"),
    }
}

/// Whether the welcome message of qemu offers capabilities.
pub open spec fn greeting(response: JsonView) -> Result<(), ErrorView> {
    if response.member("QMP"@).member("capabilities"@) == JsonView::Null {
        Err(
            crate::error::other_error(
                "Missing `QMP.capabilities` field in the welcome QMP message: "@ + response.text()
                    + "."@,
            ),
        )
    } else {
        Ok(())
    }
}

/// Looks at the welcome message of qemu.
pub fn check_greeting(response: &Json) -> (r: Result<(), Error>)
    ensures
        crate::error::outcome(r) == greeting(response.value()),
{
    if response.member("QMP").member("capabilities").is_null() {
        Err(
            Error::other(
                "Missing `QMP.capabilities` field in the welcome QMP message: ".to_owned().concat(
                    response.text().as_str(),
                ).concat("."),
            ),
        )
    } else {
        Ok(())
    }
}

/// What qemu returns in the answer to a command.
pub open spec fn returned(response: JsonView) -> Result<JsonView, ErrorView> {
    let error = response.member("error"@);
    if error != JsonView::Null {
        Err(
            crate::error::other_error(
                "Received error QMP response: `"@ + error.member("desc"@).text() + "`."@,
            ),
        )
    } else if response.member("return"@) == JsonView::Null {
        Err(
            crate::error::other_error(
                "Missing `return` field in response: `"@ + response.text() + "`."@,
            ),
        )
    } else {
        Ok(response.member("return"@))
    }
}

/// Whether a result of reading a value is the expected one.
pub open spec fn gives_value(
    result: Result<Json, Error>,
    expected: Result<JsonView, ErrorView>,
) -> bool {
    match result {
        Ok(value) => expected == Ok::<JsonView, ErrorView>(value.value()),
        Err(error) => expected == Err::<JsonView, ErrorView>(error@),
    }
}

/// Takes what qemu returns out of the answer to a command.
pub fn take_return(response: Json) -> (r: Result<Json, Error>)
    ensures
        gives_value(r, returned(response.value())),
{
    let error = response.member("error");
    if !error.is_null() {
        return Err(
            Error::other(
                "Received error QMP response: `".to_owned().concat(
                    error.member("desc").text().as_str(),
                ).concat("`."),
            ),
        );
    }
    if response.member("return").is_null() {
        return Err(
            Error::other(
                "Missing `return` field in response: `".to_owned().concat(
                    response.text().as_str(),
                ).concat("`."),
            ),
        );
    }
    Ok(response.into_member("return"))
}

/// The vCPUs that qemu lists.
pub open spec fn listed(response: JsonView) -> Result<Seq<JsonView>, ErrorView> {
    match response {
        JsonView::Array(_, cpus) => Ok(cpus),
        _ => Err(
            crate::error::other_error(
                "Error parsing QMP response for `query-cpus-fast`, expected an array, but got: `"@
                    + response.text() + "`."@,
            ),
        ),
    }
}

/// What a list of vCPUs says.
pub open spec fn cpus_view(cpus: Result<Vec<Json>, Error>) -> Result<Seq<JsonView>, ErrorView> {
    match cpus {
        Ok(cpus) => Ok(crate::json_value::values(cpus@)),
        Err(error) => Err(error@),
    }
}

/// Takes the vCPUs out of what qemu returns.
pub fn take_cpus(response: Json) -> (r: Result<Vec<Json>, Error>)
    ensures
        cpus_view(r) == listed(response.value()),
{
    match response {
        Json::Array(text, cpus) => {
            proof {
                crate::json_value::array_value(text, cpus);
            }
            Ok(cpus)
        },
        _ => Err(
            Error::other(
                "Error parsing QMP response for `query-cpus-fast`, expected an array, but got: `".to_owned().concat(
                    response.text().as_str(),
                ).concat("`."),
            ),
        ),
    }
}

/// A line from qemu: a message, or an error if it could not be read or is not in
/// JSON notation.
pub open spec fn message(reply: ReplyView) -> Result<JsonView, ErrorView> {
    match reply {
        ReplyView::Failed(error) => Err(
            crate::error::other_error(
                "Failed to read welcome message from QMP socket: `"@ + error.message + "`."@,
            ),
        ),
        _ => {
            let line = crate::exchange::reply_text(reply);
            match crate::json_value::json_document(line) {
                Ok(value) => Ok(value),
                Err(reason) => Err(
                    crate::error::other_error(
                        "Failed to parse QMP response `"@ + line + "`, error: `"@ + reason + "`."@,
                    ),
                ),
            }
        },
    }
}

/// Reads a line from qemu.
pub fn read_message(reply: Reply) -> (r: Result<Json, Error>)
    requires
        !crate::json_value::has_long_fraction(crate::exchange::reply_text(reply@)),
    ensures
        gives_value(r, message(reply@)),
{
    let qmp_response = match reply {
        Reply::Failed(error) => {
            return Err(
                Error::other(
                    "Failed to read welcome message from QMP socket: `".to_owned().concat(
                        error.message(),
                    ).concat("`."),
                ),
            );
        },
        Reply::Text(text) => text,
        _ => String::new(),
    };
    match parse_json(qmp_response.as_str()) {
        Ok(value) => Ok(value),
        Err(reason) => Err(
            Error::other(
                "Failed to parse QMP response `".to_owned().concat(qmp_response.as_str()).concat(
                    "`, error: `",
                ).concat(reason.as_str()).concat("`."),
            ),
        ),
    }
}

/// Where a dialogue stands.
#[derive(Debug)]
pub enum QmpStage {
    /// Nothing was asked yet.
    Idle,
    /// The welcome message is awaited.
    Greeting,
    /// A command is being written.
    Sending(Command),
    /// A command is being handed on.
    Flushing(Command),
    /// The answer to a command is awaited.
    Answering(Command),
    /// The vCPUs were listed, or something failed.
    Finished(Result<Vec<Json>, Error>),
}

/// What a stage says.
pub enum QmpStageView {
    Idle,
    Greeting,
    Sending(Command),
    Flushing(Command),
    Answering(Command),
    Finished(Result<Seq<JsonView>, ErrorView>),
}

impl View for QmpStage {
    type V = QmpStageView;

    open spec fn view(&self) -> QmpStageView {
        match self {
            QmpStage::Idle => QmpStageView::Idle,
            QmpStage::Greeting => QmpStageView::Greeting,
            QmpStage::Sending(command) => QmpStageView::Sending(*command),
            QmpStage::Flushing(command) => QmpStageView::Flushing(*command),
            QmpStage::Answering(command) => QmpStageView::Answering(*command),
            QmpStage::Finished(cpus) => QmpStageView::Finished(cpus_view(*cpus)),
        }
    }
}

/// The state of a client.
pub struct QmpClientView {
    /// Whether the capabilities have been settled.
    pub negotiated: bool,
    /// Where the dialogue stands.
    pub stage: QmpStageView,
}

impl QmpClientView {
    /// The client when it starts to ask for the vCPUs.
    pub open spec fn querying(self) -> QmpClientView {
        let stage = if self.negotiated {
            QmpStageView::Sending(Command::QueryCpus)
        } else {
            QmpStageView::Greeting
        };
        QmpClientView { stage, ..self }
    }

    /// What comes next, if anything does.
    pub open spec fn next(self) -> Option<QmpActionView> {
        match self.stage {
            QmpStageView::Greeting => Some(QmpActionView::ReadLine),
            QmpStageView::Sending(command) => Some(QmpActionView::Write(command_text(command))),
            QmpStageView::Flushing(_) => Some(QmpActionView::Flush),
            QmpStageView::Answering(_) => Some(QmpActionView::ReadLine),
            _ => None,
        }
    }

    /// The client in another stage.
    pub open spec fn entering(self, stage: QmpStageView) -> QmpClientView {
        QmpClientView { stage, ..self }
    }

    /// The client after a failure.
    pub open spec fn failing(self, error: ErrorView) -> QmpClientView {
        self.entering(QmpStageView::Finished(Err(error)))
    }

    /// The client after qemu returned something to a command.
    pub open spec fn after_return(self, command: Command, value: JsonView) -> QmpClientView {
        match command {
            Command::Negotiate => QmpClientView {
                negotiated: true,
                stage: QmpStageView::Sending(Command::QueryCpus),
            },
            Command::QueryCpus => self.entering(QmpStageView::Finished(listed(value))),
        }
    }

    /// The client after a reply to the present action. A failed write ends the
    /// dialogue with its own error.
    pub open spec fn after(self, reply: ReplyView) -> QmpClientView {
        match self.stage {
            QmpStageView::Greeting => match message(reply) {
                Err(error) => self.failing(error),
                Ok(response) => match greeting(response) {
                    Err(error) => self.failing(error),
                    Ok(_) => self.entering(QmpStageView::Sending(Command::Negotiate)),
                },
            },
            QmpStageView::Sending(command) => match reply {
                ReplyView::Failed(error) => self.failing(error),
                _ => self.entering(QmpStageView::Flushing(command)),
            },
            QmpStageView::Flushing(command) => match reply {
                ReplyView::Failed(error) => self.failing(error),
                _ => self.entering(QmpStageView::Answering(command)),
            },
            QmpStageView::Answering(command) => match message(reply) {
                Err(error) => self.failing(error),
                Ok(response) => match returned(response) {
                    Err(error) => self.failing(error),
                    Ok(value) => self.after_return(command, value),
                },
            },
            _ => self,
        }
    }

    /// Whether a reply to the present action can be made use of: the numbers in a
    /// line have to be readable.
    pub open spec fn accepts(self, reply: ReplyView) -> bool {
        match self.stage {
            QmpStageView::Greeting | QmpStageView::Answering(_) =>
                !crate::json_value::has_long_fraction(crate::exchange::reply_text(reply)),
            _ => true,
        }
    }

    /// The tasks of the vCPUs, once the dialogue is finished.
    pub open spec fn vcpu_info(self) -> Result<Map<VcpuId, usize>, ErrorView> {
        match self.stage->Finished_0 {
            Ok(cpus) => crate::topology::topology_of(cpus),
            Err(error) => Err(error),
        }
    }
}

/// A client of qemu.
#[derive(Debug)]
pub struct QmpClient {
    negotiated: bool,
    stage: QmpStage,
}

impl View for QmpClient {
    type V = QmpClientView;

    closed spec fn view(&self) -> QmpClientView {
        QmpClientView { negotiated: self.negotiated, stage: self.stage@ }
    }
}

impl QmpClient {
    /// A client that has not asked for anything yet.
    pub fn new() -> (r: QmpClient)
        ensures
            r@ == (QmpClientView { negotiated: false, stage: QmpStageView::Idle }),
    {
        QmpClient { negotiated: false, stage: QmpStage::Idle }
    }

    /// Starts to ask for the vCPUs.
    pub fn query_cpus_fast(&mut self)
        ensures
            final(self)@ == old(self)@.querying(),
    {
        if self.negotiated {
            self.stage = QmpStage::Sending(Command::QueryCpus);
        } else {
            self.stage = QmpStage::Greeting;
        }
    }

    /// What comes next, if anything does.
    pub fn next_action(&self) -> (r: Option<QmpAction>)
        ensures
            match r {
                Some(action) => self@.next() == Some(action@),
                None => self@.next() is None,
            },
    {
        match &self.stage {
            QmpStage::Greeting => Some(QmpAction::ReadLine),
            QmpStage::Sending(command) => Some(QmpAction::Write(write_command(*command))),
            QmpStage::Flushing(_) => Some(QmpAction::Flush),
            QmpStage::Answering(_) => Some(QmpAction::ReadLine),
            _ => None,
        }
    }

    /// Takes the welcome message.
    fn negotiate_capabilities(&mut self, reply: Reply)
        requires
            old(self)@.stage == QmpStageView::Greeting,
            old(self)@.accepts(reply@),
        ensures
            final(self)@ == old(self)@.after(reply@),
    {
        match read_message(reply) {
            Err(error) => self.stage = QmpStage::Finished(Err(error)),
            Ok(response) => match check_greeting(&response) {
                Err(error) => self.stage = QmpStage::Finished(Err(error)),
                Ok(_) => self.stage = QmpStage::Sending(Command::Negotiate),
            },
        }
    }

    /// Takes the answer to a command.
    fn finish_command(&mut self, command: Command, reply: Reply)
        requires
            old(self)@.stage == QmpStageView::Answering(command),
            old(self)@.accepts(reply@),
        ensures
            final(self)@ == old(self)@.after(reply@),
    {
        match read_message(reply) {
            Err(error) => self.stage = QmpStage::Finished(Err(error)),
            Ok(response) => match take_return(response) {
                Err(error) => self.stage = QmpStage::Finished(Err(error)),
                Ok(value) => match command {
                    Command::Negotiate => {
                        self.negotiated = true;
                        self.stage = QmpStage::Sending(Command::QueryCpus);
                    },
                    Command::QueryCpus => self.stage = QmpStage::Finished(take_cpus(value)),
                },
            },
        }
    }

    /// Whether a reply to the present action can be made use of.
    pub fn accepts(&self, reply: &Reply) -> (r: bool)
        ensures
            r == self@.accepts(reply@),
    {
        match &self.stage {
            QmpStage::Greeting | QmpStage::Answering(_) => match reply {
                Reply::Text(line) => has_readable_numbers(line.as_str()),
                _ => true,
            },
            _ => true,
        }
    }

    /// Takes the reply to the present action.
    pub fn reply(&mut self, reply: Reply)
        requires
            old(self)@.accepts(reply@),
        ensures
            final(self)@ == old(self)@.after(reply@),
    {
        match self.stage {
            QmpStage::Greeting => self.negotiate_capabilities(reply),
            QmpStage::Sending(command) => match reply {
                Reply::Failed(error) => self.stage = QmpStage::Finished(Err(error)),
                _ => self.stage = QmpStage::Flushing(command),
            },
            QmpStage::Flushing(command) => match reply {
                Reply::Failed(error) => self.stage = QmpStage::Finished(Err(error)),
                _ => self.stage = QmpStage::Answering(command),
            },
            QmpStage::Answering(command) => self.finish_command(command, reply),
            _ => {},
        }
    }
}

/// The tasks of the vCPUs, from a client whose dialogue is finished.
pub fn read_vcpu_info_from_qmp_socket(client: QmpClient) -> (r: Result<Topology, Error>)
    requires
        client@.stage is Finished,
    ensures
        crate::topology::gives_topology(r, client@.vcpu_info()),
{
    match client.stage {
        QmpStage::Finished(Ok(cpus)) => transform_vcpu_info(&cpus),
        QmpStage::Finished(Err(error)) => Err(error),
        _ => vstd::pervasive::unreached(),
    }
}

/// The client after a row of replies.
pub open spec fn run(client: QmpClientView, replies: Seq<ReplyView>) -> QmpClientView
    decreases replies.len(),
{
    if replies.len() == 0 {
        client
    } else {
        run(client.after(replies.first()), replies.drop_first())
    }
}

/// The actions that the replies of a row belong to.
pub open spec fn performed(client: QmpClientView, replies: Seq<ReplyView>) -> Seq<QmpActionView>
    decreases replies.len(),
{
    if replies.len() == 0 || client.next() is None {
        Seq::<QmpActionView>::empty()
    } else {
        seq![client.next()->0] + performed(client.after(replies.first()), replies.drop_first())
    }
}

/// The actions of a command.
pub open spec fn command_actions(command: Command) -> Seq<QmpActionView> {
    seq![
        QmpActionView::Write(command_text(command)),
        QmpActionView::Flush,
        QmpActionView::ReadLine,
    ]
}

/// The actions that are left in a stage if nothing goes wrong.
pub open spec fn dialogue(stage: QmpStageView) -> Seq<QmpActionView> {
    let query = command_actions(Command::QueryCpus);
    let rest = |command: Command|
        if command == Command::Negotiate {
            query
        } else {
            Seq::<QmpActionView>::empty()
        };
    match stage {
        QmpStageView::Greeting => seq![QmpActionView::ReadLine] + command_actions(
            Command::Negotiate,
        ) + query,
        QmpStageView::Sending(command) => command_actions(command) + rest(command),
        QmpStageView::Flushing(command) => command_actions(command).skip(1) + rest(command),
        QmpStageView::Answering(command) => command_actions(command).skip(2) + rest(command),
        _ => Seq::<QmpActionView>::empty(),
    }
}

/// A client in the middle of a query keeps to the rest of the dialogue.
proof fn client_keeps_to_dialogue(client: QmpClientView, replies: Seq<ReplyView>)
    requires
        client.stage is Sending && client.stage->Sending_0 == Command::QueryCpus
            ==> client.negotiated,
        client.stage is Flushing && client.stage->Flushing_0 == Command::QueryCpus
            ==> client.negotiated,
        client.stage is Answering && client.stage->Answering_0 == Command::QueryCpus
            ==> client.negotiated,
        !(client.stage is Idle),
    ensures
        ({
            let actions = performed(client, replies);
            let whole = dialogue(client.stage);
            let end = run(client, replies);
            &&& actions.len() <= whole.len()
            &&& actions == whole.take(actions.len() as int)
            &&& replies.len() >= whole.len() ==> end.stage is Finished
            &&& end.stage is Finished && end.stage->Finished_0 is Ok && !(client.stage is Finished)
                ==> actions == whole && end.negotiated
        }),
    decreases replies.len(),
{
    let actions = performed(client, replies);
    let whole = dialogue(client.stage);
    if client.next() is Some {
        assert(whole[0] == client.next()->0);
    }
    if replies.len() > 0 {
        let next = client.after(replies.first());
        let rest = replies.drop_first();
        client_keeps_to_dialogue(next, rest);
        if client.next() is Some {
            if next.stage is Finished {
                settled_client_stays(next, rest);
                assert(actions =~= whole.take(1));
                if next.stage->Finished_0 is Ok {
                    assert(whole =~= whole.take(1));
                }
            } else {
                assert(dialogue(next.stage) =~= whole.skip(1));
                let later = performed(next, rest);
                assert(actions =~= whole.take(actions.len() as int)) by {
                    assert(forall|k: int|
                        0 <= k < later.len() ==> #[trigger] later[k] == whole[k + 1]);
                }
            }
        } else {
            settled_client_stays(client, replies);
        }
    } else {
        assert(actions =~= whole.take(0));
    }
}

/// A client with nothing to do stays as it is.
proof fn settled_client_stays(client: QmpClientView, replies: Seq<ReplyView>)
    requires
        client.next() is None,
    ensures
        run(client, replies) == client,
        performed(client, replies).len() == 0,
    decreases replies.len(),
{
    if replies.len() > 0 {
        settled_client_stays(client, replies.drop_first());
    }
}

/// Whatever qemu answers, a query keeps to the dialogue: greeting, capabilities,
/// list of vCPUs. It ends within the dialogue. If it ends well, all of the
/// dialogue has taken place and the capabilities are settled.
pub proof fn query_keeps_to_dialogue(client: QmpClientView, replies: Seq<ReplyView>)
    ensures
        ({
            let actions = performed(client.querying(), replies);
            let whole = dialogue(client.querying().stage);
            let end = run(client.querying(), replies);
            &&& actions.len() <= whole.len()
            &&& actions == whole.take(actions.len() as int)
            &&& replies.len() >= whole.len() ==> end.stage is Finished
            &&& end.stage is Finished && end.stage->Finished_0 is Ok ==> actions == whole
                && end.negotiated
        }),
{
    client_keeps_to_dialogue(client.querying(), replies);
}

/// A client whose capabilities are settled asks for the vCPUs at once.
pub proof fn capabilities_are_settled_once(client: QmpClientView, replies: Seq<ReplyView>)
    requires
        client.negotiated,
    ensures
        performed(client.querying(), replies).len() <= 3,
        performed(client.querying(), replies) == command_actions(Command::QueryCpus).take(
            performed(client.querying(), replies).len() as int,
        ),
{
    client_keeps_to_dialogue(client.querying(), replies);
    assert(dialogue(client.querying().stage) =~= command_actions(Command::QueryCpus));
}

/// The commands as qemu reads them.
proof fn commands_in_notation()
    ensures
        command_text(Command::Negotiate) == "{\"execute\":\"qmp_capabilities\"}"@,
        command_text(Command::QueryCpus) == "{\"execute\":\"query-cpus-fast\"}"@,
{
    reveal_strlit("{\"");
    reveal_strlit("execute");
    reveal_strlit("\":\"");
    reveal_strlit("qmp_capabilities");
    reveal_strlit("query-cpus-fast");
    reveal_strlit("\"}");
    reveal_strlit("{\"execute\":\"qmp_capabilities\"}");
    reveal_strlit("{\"execute\":\"query-cpus-fast\"}");
    assert(command_text(Command::Negotiate) =~= "{\"execute\":\"qmp_capabilities\"}"@);
    assert(command_text(Command::QueryCpus) =~= "{\"execute\":\"query-cpus-fast\"}"@);
}

/// Whether a line is a message that offers capabilities.
pub open spec fn is_welcome(line: Seq<char>) -> bool {
    crate::json_value::json_document(line) matches Ok(value) && value.member("QMP"@).member(
        "capabilities"@,
    ) != JsonView::Null
}

/// Whether a line is the answer to a command that qemu carried out, with what it
/// returns.
pub open spec fn is_answer(line: Seq<char>, value: JsonView) -> bool {
    crate::json_value::json_document(line) matches Ok(response) && response.member("error"@)
        == JsonView::Null && response.member("return"@) == value && value != JsonView::Null
}

/// One more reply to a client that still waits for one.
proof fn one_reply(client: QmpClientView, reply: ReplyView, rest: Seq<ReplyView>)
    requires
        client.next() is Some,
    ensures
        run(client, seq![reply] + rest) == run(client.after(reply), rest),
        performed(client, seq![reply] + rest) == seq![client.next()->0] + performed(
            client.after(reply),
            rest,
        ),
{
    assert((seq![reply] + rest).drop_first() =~= rest);
    assert((seq![reply] + rest).first() == reply);
}

/// A command that qemu carries out: it is written, handed on, and answered.
proof fn command_is_answered(
    client: QmpClientView,
    command: Command,
    written: ReplyView,
    flushed: ReplyView,
    line: Seq<char>,
    value: JsonView,
    rest: Seq<ReplyView>,
)
    requires
        client.stage == QmpStageView::Sending(command),
        !(written is Failed),
        !(flushed is Failed),
        is_answer(line, value),
    ensures
        run(client, seq![written, flushed, ReplyView::Text(line)] + rest) == run(
            client.after_return(command, value),
            rest,
        ),
        performed(client, seq![written, flushed, ReplyView::Text(line)] + rest) == seq![
            QmpActionView::Write(command_text(command)),
            QmpActionView::Flush,
            QmpActionView::ReadLine,
        ] + performed(client.after_return(command, value), rest),
{
    let text = ReplyView::Text(line);
    let flushing = client.entering(QmpStageView::Flushing(command));
    let answering = client.entering(QmpStageView::Answering(command));
    let r2 = seq![text] + rest;
    let r1 = seq![flushed] + r2;
    let r0 = seq![written] + r1;
    assert(r0 =~= seq![written, flushed, text] + rest);
    one_reply(client, written, r1);
    one_reply(flushing, flushed, r2);
    one_reply(answering, text, rest);
    assert(answering.after(text) == client.after_return(command, value));
    let later = performed(client.after_return(command, value), rest);
    assert(performed(client, r0) =~= seq![
        QmpActionView::Write(command_text(command)),
        QmpActionView::Flush,
        QmpActionView::ReadLine,
    ] + later);
}

/// A query that qemu answers: after the welcome, the capabilities are settled with
/// one command, and the vCPUs are asked for with another. What qemu returns to that
/// is the list of vCPUs, and the tasks are read from it.
pub proof fn answered_query_lists_vcpus(
    client: QmpClientView,
    welcome: Seq<char>,
    settled: Seq<char>,
    nothing: JsonView,
    line: Seq<char>,
    text: Seq<char>,
    cpus: Seq<JsonView>,
    done: ReplyView,
)
    requires
        !client.negotiated,
        is_welcome(welcome),
        is_answer(settled, nothing),
        is_answer(line, JsonView::Array(text, cpus)),
        !(done is Failed),
    ensures
        ({
            let replies = seq![
                ReplyView::Text(welcome),
                done,
                done,
                ReplyView::Text(settled),
                done,
                done,
                ReplyView::Text(line),
            ];
            let end = run(client.querying(), replies);
            &&& performed(client.querying(), replies) == seq![
                QmpActionView::ReadLine,
                QmpActionView::Write("{\"execute\":\"qmp_capabilities\"}"@),
                QmpActionView::Flush,
                QmpActionView::ReadLine,
                QmpActionView::Write("{\"execute\":\"query-cpus-fast\"}"@),
                QmpActionView::Flush,
                QmpActionView::ReadLine,
            ]
            &&& end.negotiated
            &&& end.stage == QmpStageView::Finished(Ok(cpus))
            &&& end.vcpu_info() == crate::topology::topology_of(cpus)
        }),
{
    commands_in_notation();
    let value = JsonView::Array(text, cpus);
    let none = Seq::<ReplyView>::empty();
    let start = client.querying();
    let sending = start.entering(QmpStageView::Sending(Command::Negotiate));
    let asking = sending.after_return(Command::Negotiate, nothing);
    let end = asking.after_return(Command::QueryCpus, value);
    let last = seq![done, done, ReplyView::Text(line)] + none;
    let middle = seq![done, done, ReplyView::Text(settled)] + last;
    let replies = seq![ReplyView::Text(welcome)] + middle;
    assert(replies =~= seq![
        ReplyView::Text(welcome),
        done,
        done,
        ReplyView::Text(settled),
        done,
        done,
        ReplyView::Text(line),
    ]);
    one_reply(start, ReplyView::Text(welcome), middle);
    assert(start.after(ReplyView::Text(welcome)) == sending);
    command_is_answered(sending, Command::Negotiate, done, done, settled, nothing, last);
    command_is_answered(asking, Command::QueryCpus, done, done, line, value, none);
    assert(performed(end, none) =~= Seq::<QmpActionView>::empty());
    assert(performed(start, replies) =~= seq![
        QmpActionView::ReadLine,
        QmpActionView::Write(command_text(Command::Negotiate)),
        QmpActionView::Flush,
        QmpActionView::ReadLine,
        QmpActionView::Write(command_text(Command::QueryCpus)),
        QmpActionView::Flush,
        QmpActionView::ReadLine,
    ]);
}

/// A client whose capabilities are settled asks for the vCPUs without waiting for a
/// welcome, and is answered in the same way.
pub proof fn later_query_lists_vcpus(
    client: QmpClientView,
    line: Seq<char>,
    text: Seq<char>,
    cpus: Seq<JsonView>,
    done: ReplyView,
)
    requires
        client.negotiated,
        is_answer(line, JsonView::Array(text, cpus)),
        !(done is Failed),
    ensures
        ({
            let replies = seq![done, done, ReplyView::Text(line)];
            let end = run(client.querying(), replies);
            &&& performed(client.querying(), replies) == seq![
                QmpActionView::Write("{\"execute\":\"query-cpus-fast\"}"@),
                QmpActionView::Flush,
                QmpActionView::ReadLine,
            ]
            &&& end.negotiated
            &&& end.stage == QmpStageView::Finished(Ok(cpus))
        }),
{
    commands_in_notation();
    let value = JsonView::Array(text, cpus);
    let none = Seq::<ReplyView>::empty();
    let start = client.querying();
    let end = start.after_return(Command::QueryCpus, value);
    command_is_answered(start, Command::QueryCpus, done, done, line, value, none);
    assert(seq![done, done, ReplyView::Text(line)] + none =~= seq![
        done,
        done,
        ReplyView::Text(line),
    ]);
    assert(performed(end, none) =~= Seq::<QmpActionView>::empty());
    assert(performed(start, seq![done, done, ReplyView::Text(line)]) =~= seq![
        QmpActionView::Write(command_text(Command::QueryCpus)),
        QmpActionView::Flush,
        QmpActionView::ReadLine,
    ]);
}

/// What ends a query with an error, and with which one: a line that cannot be read
/// or understood, a welcome without capabilities, an answer that reports an error or
/// returns nothing, and a list of vCPUs that is no array. A command that cannot be
/// written or handed on ends it with the failure itself.
pub proof fn failures_end_query(
    client: QmpClientView,
    command: Command,
    error: ErrorView,
    line: Seq<char>,
)
    ensures
        ({
            let greeting = client.entering(QmpStageView::Greeting);
            let answering = client.entering(QmpStageView::Answering(command));
            let fails = |from: QmpClientView, reply: ReplyView, message: Seq<char>|
                from.after(reply) == from.entering(
                    QmpStageView::Finished(
                        Err(ErrorView { kind: crate::error::ErrorKind::Other, message }),
                    ),
                );
            let unread = "Failed to read welcome message from QMP socket: `"@ + error.message
                + "`."@;
            let text = ReplyView::Text(line);
            &&& fails(greeting, ReplyView::Failed(error), unread)
            &&& fails(answering, ReplyView::Failed(error), unread)
            &&& client.entering(QmpStageView::Sending(command)).after(ReplyView::Failed(error))
                == client.entering(QmpStageView::Finished(Err(error)))
            &&& client.entering(QmpStageView::Flushing(command)).after(ReplyView::Failed(error))
                == client.entering(QmpStageView::Finished(Err(error)))
            &&& match crate::json_value::json_document(line) {
                Err(reason) => {
                    let message = "Failed to parse QMP response `"@ + line + "`, error: `"@ + reason
                        + "`."@;
                    fails(greeting, text, message) && fails(answering, text, message)
                },
                Ok(value) => {
                    let reported = value.member("error"@);
                    let returned = value.member("return"@);
                    &&& value.member("QMP"@).member("capabilities"@) == JsonView::Null ==> fails(
                        greeting,
                        text,
                        "Missing `QMP.capabilities` field in the welcome QMP message: "@
                            + value.text() + "."@,
                    )
                    &&& reported != JsonView::Null ==> fails(
                        answering,
                        text,
                        "Received error QMP response: `"@ + reported.member("desc"@).text() + "`."@,
                    )
                    &&& reported == JsonView::Null && returned == JsonView::Null ==> fails(
                        answering,
                        text,
                        "Missing `return` field in response: `"@ + value.text() + "`."@,
                    )
                    &&& reported == JsonView::Null && returned != JsonView::Null && !(
                    returned is Array) && command == Command::QueryCpus ==> fails(
                        answering,
                        text,
                        "Error parsing QMP response for `query-cpus-fast`, expected an array, but got: `"@
                            + returned.text() + "`."@,
                    )
                },
            }
            &&& forall|failed: QmpClientView|
                failed.stage == QmpStageView::Finished(Err(error)) ==> #[trigger] failed.vcpu_info()
                    == Err::<Map<VcpuId, usize>, ErrorView>(error)
        }),
{
}

} // verus!
