//! The remote statement executor's side of the wire: what is sent to the
//! statement-batch endpoint and what its answer means.
//!
//! The caller sends the request and reads the answer; this module writes the
//! request and judges the answer. An answer is a list with one outcome for
//! each statement, in the order of the request.

use vstd::prelude::*;
use crate::text::{
    decimal_string, decimal_text, has_prefix, replace_text, replaced, starts_with_text,
};

verus! {

/// The endpoint as the request needs it: the `libsql://` scheme rewritten to
/// `https://`.
pub open spec fn endpoint_text(url: Seq<char>) -> Seq<char> {
    replaced(url, "libsql://"@, "https://"@)
}

/// Rewrites the cloud scheme of an endpoint to the scheme that requests use.
pub fn rewrite_endpoint(url: &str) -> (out: String)
    ensures
        out@ == endpoint_text(url@),
{
    replace_text(url, "libsql://", "https://")
}

/// The value of the request's authorization header.
pub fn bearer_header(token: &str) -> (out: String)
    ensures
        out@ == "Bearer "@ + token@,
{
    let mut out = String::from_str("Bearer ");
    out.append(token);
    out
}

/// The compact JSON array of strings that serde_json writes for a list of
/// texts, which depends on the texts alone.
pub uninterp spec fn json_array_text(items: Seq<Seq<char>>) -> Seq<char>;

/// `serde_json::to_string` on a list of strings. It gives a text, and the
/// text is named, not described. serde_json fails where a value's own way of
/// serialising fails, where a map has a key that is no string, and where the
/// writer refuses a write; a list of strings is written as a sequence of
/// strings, with no map in it, into a byte vector in memory, which takes
/// every write.
#[verifier::external_body]
pub(crate) fn encode_texts(items: &Vec<String>) -> (out: Result<String, String>)
    ensures
        out is Ok,
        out.unwrap()@ == json_array_text(items.deep_view()),
{
    serde_json::to_string(items).map_err(|e| e.to_string())
}

/// A request body around an encoded statement list.
pub open spec fn body_text(encoded: Seq<char>) -> Seq<char> {
    "{\"statements\":"@ + encoded + "}"@
}

/// Frames an encoded statement list as a request body.
pub fn frame_body(encoded: &str) -> (out: String)
    ensures
        out@ == body_text(encoded@),
{
    let mut out = String::from_str("{\"statements\":");
    out.append(encoded);
    out.append("}");
    out
}

/// Writes the body of the request that carries `statements`: one JSON object
/// whose `statements` member lists them in order. Every list of statements
/// has a body, the empty list too.
pub fn batch_request_body(statements: &Vec<String>) -> (out: Result<String, String>)
    ensures
        out is Ok,
        out.unwrap()@ == body_text(json_array_text(statements.deep_view())),
{
    match encode_texts(statements) {
        Ok(encoded) => Ok(frame_body(encoded.as_str())),
        Err(message) => Err(message),
    }
}

/// What came back over HTTP.
#[derive(Clone, Debug, PartialEq, Eq)]
pub struct HttpReply {
    /// The status code.
    pub status: u16,
    /// The status as it is shown, such as `404 Not Found`.
    pub status_text: String,
    pub body: String,
}

/// A status of the 2xx class.
pub open spec fn is_success(status: u16) -> bool {
    200 <= status < 300
}

/// What a reply is worth before its body is read: the body of a reply with a
/// success status; a transport failure or any other status is an error and
/// the body is not looked into.
pub open spec fn status_checked(reply: Result<HttpReply, String>) -> Result<Seq<char>, Seq<char>> {
    match reply {
        Ok(r) => if is_success(r.status) {
            Ok(r.body@)
        } else {
            Err("Server error: "@ + r.status_text@ + " - "@ + r.body@)
        },
        Err(cause) => Err("HTTP request failed: "@ + cause@),
    }
}

/// Judges the transport and the status of a reply and hands out its body.
pub fn check_status(reply: Result<HttpReply, String>) -> (out: Result<String, String>)
    ensures
        match status_checked(reply) {
            Ok(body) => out is Ok && out.unwrap()@ == body,
            Err(message) => out is Err && out.unwrap_err()@ == message,
        },
{
    match reply {
        Ok(r) => {
            if 200 <= r.status && r.status < 300 {
                Ok(r.body)
            } else {
                let mut message = String::from_str("Server error: ");
                message.append(r.status_text.as_str());
                message.append(" - ");
                message.append(r.body.as_str());
                Err(message)
            }
        },
        Err(cause) => {
            let mut message = String::from_str("HTTP request failed: ");
            message.append(cause.as_str());
            Err(message)
        },
    }
}

/// One value of a remote result set, as JSON encodes it. The caller writes a
/// number, and any value that is no scalar, as its JSON text.
#[derive(Clone, Debug, PartialEq, Eq)]
pub enum JsonCell {
    Null,
    Text(String),
    Number(String),
    Bool(bool),
    Other(String),
}

/// A [`JsonCell`] as contracts see it.
pub enum CellView {
    Null,
    Text(Seq<char>),
    Number(Seq<char>),
    Bool(bool),
    Other(Seq<char>),
}

impl DeepView for JsonCell {
    type V = CellView;

    open spec fn deep_view(&self) -> CellView {
        match self {
            JsonCell::Null => CellView::Null,
            JsonCell::Text(s) => CellView::Text(s@),
            JsonCell::Number(s) => CellView::Number(s@),
            JsonCell::Bool(b) => CellView::Bool(*b),
            JsonCell::Other(s) => CellView::Other(s@),
        }
    }
}

/// The value of a row that a JSON value stands for: none for null, the text
/// itself for a string, the JSON text for a number or a boolean, and for
/// anything else its JSON text as a fallback.
pub open spec fn cell_text(cell: CellView) -> Option<Seq<char>> {
    match cell {
        CellView::Null => None,
        CellView::Text(s) => Some(s),
        CellView::Number(s) => Some(s),
        CellView::Bool(b) => Some(
            if b {
                "true"@
            } else {
                "false"@
            },
        ),
        CellView::Other(s) => Some(s),
    }
}

/// Turns a JSON value into a value of a row.
pub fn cell_value(cell: &JsonCell) -> (out: Option<String>)
    ensures
        out.deep_view() == cell_text(cell.deep_view()),
{
    match cell {
        JsonCell::Null => None,
        JsonCell::Text(s) => Some(s.clone()),
        JsonCell::Number(s) => Some(s.clone()),
        JsonCell::Bool(b) => Some(
            if *b {
                String::from_str("true")
            } else {
                String::from_str("false")
            },
        ),
        JsonCell::Other(s) => Some(s.clone()),
    }
}

/// The rows of a result set as rows of nullable texts.
pub open spec fn rows_text(rows: Seq<Seq<CellView>>) -> Seq<Seq<Option<Seq<char>>>> {
    rows.map_values(|row: Seq<CellView>| row.map_values(|cell: CellView| cell_text(cell)))
}

/// Turns the rows of a result set into rows of nullable texts.
pub fn rows_values(rows: &Vec<Vec<JsonCell>>) -> (out: Vec<Vec<Option<String>>>)
    ensures
        out.deep_view() == rows_text(rows.deep_view()),
{
    let mut out: Vec<Vec<Option<String>>> = Vec::new();
    let mut i: usize = 0;
    while i < rows.len()
        invariant
            0 <= i <= rows.len(),
            out.deep_view() == rows_text(rows.deep_view().take(i as int)),
        decreases rows.len() - i,
    {
        let mut row: Vec<Option<String>> = Vec::new();
        let mut j: usize = 0;
        while j < rows[i].len()
            invariant
                0 <= i < rows.len(),
                0 <= j <= rows[i as int].len(),
                row.deep_view() == rows[i as int].deep_view().take(j as int).map_values(
                    |cell: CellView| cell_text(cell),
                ),
            decreases rows[i as int].len() - j,
        {
            let value = cell_value(&rows[i][j]);
            let ghost before = row;
            row.push(value);
            proof {
                assert(row.deep_view() =~= before.deep_view().push(value.deep_view()));
                assert(rows[i as int].deep_view().take(j as int + 1).map_values(
                    |cell: CellView| cell_text(cell),
                ) =~= rows[i as int].deep_view().take(j as int).map_values(
                    |cell: CellView| cell_text(cell),
                ).push(cell_text(rows[i as int][j as int].deep_view())));
            }
            j = j + 1;
        }
        proof {
            assert(rows[i as int].deep_view().take(rows[i as int].len() as int)
                =~= rows[i as int].deep_view());
        }
        let ghost before = out;
        out.push(row);
        proof {
            assert(out.deep_view() =~= before.deep_view().push(row.deep_view()));
            assert(rows_text(rows.deep_view().take(i as int + 1)) =~= rows_text(
                rows.deep_view().take(i as int),
            ).push(
                rows[i as int].deep_view().map_values(|cell: CellView| cell_text(cell)),
            ));
        }
        i = i + 1;
    }
    proof {
        assert(rows.deep_view().take(rows.len() as int) =~= rows.deep_view());
    }
    out
}

/// The outcome of one statement of a batch. An answer's entry that has the
/// shape of a result set is one, whatever else it holds; only an entry
/// without that shape is read as an error.
#[derive(Clone, Debug, PartialEq, Eq)]
pub enum StatementOutcome {
    Rows { columns: Vec<String>, rows: Vec<Vec<JsonCell>> },
    Error { message: String },
}

/// A [`StatementOutcome`] as contracts see it.
pub enum OutcomeView {
    Rows { columns: Seq<Seq<char>>, rows: Seq<Seq<CellView>> },
    Error { message: Seq<char> },
}

impl DeepView for StatementOutcome {
    type V = OutcomeView;

    open spec fn deep_view(&self) -> OutcomeView {
        match self {
            StatementOutcome::Rows { columns, rows } => OutcomeView::Rows {
                columns: columns.deep_view(),
                rows: rows.deep_view(),
            },
            StatementOutcome::Error { message } => OutcomeView::Error { message: message@ },
        }
    }
}

/// A parsed answer as contracts see it: the outcomes, or why the body could
/// not be parsed.
pub open spec fn parsed_view(parsed: Result<Vec<StatementOutcome>, String>) -> Result<
    Seq<OutcomeView>,
    Seq<char>,
> {
    match parsed {
        Ok(outcomes) => Ok(outcomes.deep_view()),
        Err(cause) => Err(cause@),
    }
}

/// The place of the first error at or behind `from`, or the length where
/// there is none.
pub open spec fn first_error_from(outcomes: Seq<OutcomeView>, from: int) -> int
    decreases outcomes.len() - from,
{
    if from < 0 || from >= outcomes.len() {
        outcomes.len() as int
    } else if outcomes[from] is Error {
        from
    } else {
        first_error_from(outcomes, from + 1)
    }
}

/// The first error of an answer is the least place that holds an error.
pub proof fn lemma_first_error_is_least(outcomes: Seq<OutcomeView>, from: int)
    requires
        0 <= from <= outcomes.len(),
    ensures
        from <= first_error_from(outcomes, from) <= outcomes.len(),
        first_error_from(outcomes, from) < outcomes.len() ==> outcomes[first_error_from(
            outcomes,
            from,
        )] is Error,
        forall|i: int|
            from <= i < first_error_from(outcomes, from) ==> !(#[trigger] outcomes[i] is Error),
    decreases outcomes.len() - from,
{
    if from < outcomes.len() && !(outcomes[from] is Error) {
        lemma_first_error_is_least(outcomes, from + 1);
    }
}

/// The message of a batch whose statement `index` failed.
pub open spec fn batch_failure_text(index: int, message: Seq<char>) -> Seq<char> {
    "Batch statement "@ + decimal_text(index) + " failed: "@ + message
}

/// The message of a batch whose answer could not be parsed.
pub open spec fn batch_unreadable_text(cause: Seq<char>, body: Seq<char>) -> Seq<char> {
    "Failed to parse batch response: "@ + cause + " (Body: "@ + body + ")"@
}

/// What a batch's answer is worth: the batch fails with the first statement
/// error, by place and message, and it fails where the answer cannot be
/// parsed: an answer that cannot be read is never taken for success.
pub open spec fn batch_judged(body: Seq<char>, parsed: Result<Seq<OutcomeView>, Seq<char>>)
    -> Result<(), Seq<char>> {
    match parsed {
        Ok(outcomes) => {
            let at = first_error_from(outcomes, 0);
            if at < outcomes.len() {
                Err(batch_failure_text(at, outcomes[at]->message))
            } else {
                Ok(())
            }
        },
        Err(cause) => Err(batch_unreadable_text(cause, body)),
    }
}

/// Judges the answer to a batch. Statements before the failed one, and
/// perhaps after it, have taken effect on the remote side all the same.
pub fn batch_outcome(body: &str, parsed: &Result<Vec<StatementOutcome>, String>) -> (out: Result<
    (),
    String,
>)
    ensures
        match batch_judged(body@, parsed_view(*parsed)) {
            Ok(_) => out is Ok,
            Err(message) => out is Err && out.unwrap_err()@ == message,
        },
{
    match parsed {
        Ok(outcomes) => {
            let mut i: usize = 0;
            while i < outcomes.len()
                invariant
                    0 <= i <= outcomes.len(),
                    parsed_view(*parsed) == Ok::<Seq<OutcomeView>, Seq<char>>(
                        outcomes.deep_view(),
                    ),
                    first_error_from(outcomes.deep_view(), 0) == first_error_from(
                        outcomes.deep_view(),
                        i as int,
                    ),
                decreases outcomes.len() - i,
            {
                match &outcomes[i] {
                    StatementOutcome::Error { message } => {
                        let mut text = String::from_str("Batch statement ");
                        let place = decimal_string(i as i128);
                        text.append(place.as_str());
                        text.append(" failed: ");
                        text.append(message.as_str());
                        proof {
                            let seen = outcomes.deep_view();
                            assert(seen[i as int] == outcomes[i as int].deep_view());
                            assert(seen[i as int] is Error);
                            assert(first_error_from(seen, i as int) == i);
                            assert(text@ =~= batch_failure_text(i as int, message@));
                            assert(seen[i as int]->message == message@);
                        }
                        return Err(text);
                    },
                    StatementOutcome::Rows { .. } => {
                        proof {
                            let seen = outcomes.deep_view();
                            assert(seen[i as int] == outcomes[i as int].deep_view());
                        }
                    },
                }
                i = i + 1;
            }
            Ok(())
        },
        Err(cause) => {
            let mut text = String::from_str("Failed to parse batch response: ");
            text.append(cause.as_str());
            text.append(" (Body: ");
            text.append(body);
            text.append(")");
            Err(text)
        },
    }
}

/// The message of an answer that could not be parsed.
pub open spec fn parse_failure_text(cause: Seq<char>, body: Seq<char>) -> Seq<char> {
    "Parse error: "@ + cause + " (Body: "@ + body + ")"@
}

/// What the answer to a single read statement is worth: the rows of the
/// first outcome as nullable texts, its message where it is an error, no rows
/// where the answer is empty; an answer that cannot be parsed is an error.
pub open spec fn fetch_judged(body: Seq<char>, parsed: Result<Seq<OutcomeView>, Seq<char>>)
    -> Result<Seq<Seq<Option<Seq<char>>>>, Seq<char>> {
    match parsed {
        Ok(outcomes) => if outcomes.len() == 0 {
            Ok(Seq::empty())
        } else {
            match outcomes[0] {
                OutcomeView::Rows { columns, rows } => Ok(rows_text(rows)),
                OutcomeView::Error { message } => Err(message),
            }
        },
        Err(cause) => Err(parse_failure_text(cause, body)),
    }
}

/// Judges the answer to a single read statement.
pub fn fetched_rows(body: &str, parsed: &Result<Vec<StatementOutcome>, String>) -> (out: Result<
    Vec<Vec<Option<String>>>,
    String,
>)
    ensures
        match fetch_judged(body@, parsed_view(*parsed)) {
            Ok(rows) => out is Ok && out.unwrap().deep_view() == rows,
            Err(message) => out is Err && out.unwrap_err()@ == message,
        },
{
    match parsed {
        Ok(outcomes) => {
            if outcomes.len() == 0 {
                let rows: Vec<Vec<Option<String>>> = Vec::new();
                proof {
                    assert(rows.deep_view() =~= Seq::empty());
                }
                Ok(rows)
            } else {
                match &outcomes[0] {
                    StatementOutcome::Rows { columns, rows } => Ok(rows_values(rows)),
                    StatementOutcome::Error { message } => Err(message.clone()),
                }
            }
        },
        Err(cause) => {
            let mut text = String::from_str("Parse error: ");
            text.append(cause.as_str());
            text.append(" (Body: ");
            text.append(body);
            text.append(")");
            Err(text)
        },
    }
}

/// The message of an answer to a single statement that could not be parsed.
pub open spec fn query_failure_text(cause: Seq<char>, body: Seq<char>) -> Seq<char> {
    "Failed to parse response: "@ + cause + " (Body: "@ + body + ")"@
}

/// Judges the answer to a single statement whose outcome the caller looks
/// into itself: the outcomes as they came, a statement's error among them;
/// only an answer that cannot be parsed is an error.
pub fn query_outcome(body: &str, parsed: Result<Vec<StatementOutcome>, String>) -> (out: Result<
    Vec<StatementOutcome>,
    String,
>)
    ensures
        match parsed {
            Ok(outcomes) => out == Ok::<Vec<StatementOutcome>, String>(outcomes),
            Err(cause) => out is Err && out.unwrap_err()@ == query_failure_text(cause@, body@),
        },
{
    match parsed {
        Ok(outcomes) => Ok(outcomes),
        Err(cause) => {
            let mut text = String::from_str("Failed to parse response: ");
            text.append(cause.as_str());
            text.append(" (Body: ");
            text.append(body);
            text.append(")");
            Err(text)
        },
    }
}

/// What a whole reply to a single read statement is worth, with `parsed`
/// standing for what parsing its body gives: the transport and the status
/// are judged first, and only the body of a reply with a success status is
/// looked into.
pub open spec fn fetch_reply_judged(
    reply: Result<HttpReply, String>,
    parsed: Result<Seq<OutcomeView>, Seq<char>>,
) -> Result<Seq<Seq<Option<Seq<char>>>>, Seq<char>> {
    match status_checked(reply) {
        Ok(body) => fetch_judged(body, parsed),
        Err(message) => Err(message),
    }
}

/// What a whole reply to a batch is worth, with `parsed` standing for what
/// parsing its body gives: the transport and the status are judged first.
pub open spec fn batch_reply_judged(
    reply: Result<HttpReply, String>,
    parsed: Result<Seq<OutcomeView>, Seq<char>>,
) -> Result<(), Seq<char>> {
    match status_checked(reply) {
        Ok(body) => batch_judged(body, parsed),
        Err(message) => Err(message),
    }
}

/// The body of the reply was handed to `parse` and `parsed` is what came
/// back; for a reply without a success status nothing is asked of `parse`.
pub open spec fn body_parsed<P: FnOnce(String) -> Result<Vec<StatementOutcome>, String>>(
    reply: Result<HttpReply, String>,
    parse: P,
    parsed: Result<Vec<StatementOutcome>, String>,
) -> bool {
    match status_checked(reply) {
        Ok(body) => exists|text: String| text@ == body && call_ensures(parse, (text,), parsed),
        Err(_) => true,
    }
}

/// Judges the reply to a single read statement from end to end. The caller
/// hands in the parser of answers; it is called on the body only after the
/// transport and the status were found good, and at most once.
pub fn fetch_reply<P: FnOnce(String) -> Result<Vec<StatementOutcome>, String>>(
    reply: Result<HttpReply, String>,
    parse: P,
) -> (out: Result<Vec<Vec<Option<String>>>, String>)
    requires
        forall|text: String| call_requires(parse, (text,)),
    ensures
        exists|parsed: Result<Vec<StatementOutcome>, String>|
            body_parsed(reply, parse, parsed) && (match fetch_reply_judged(
                reply,
                parsed_view(parsed),
            ) {
                Ok(rows) => out is Ok && out.unwrap().deep_view() == rows,
                Err(message) => out is Err && out.unwrap_err()@ == message,
            }),
{
    match check_status(reply) {
        Ok(body) => {
            let parsed = parse(body.clone());
            let out = fetched_rows(body.as_str(), &parsed);
            proof {
                assert(body_parsed(reply, parse, parsed));
            }
            out
        },
        Err(message) => {
            proof {
                let parsed: Result<Vec<StatementOutcome>, String> = Err(message);
                assert(body_parsed(reply, parse, parsed));
            }
            Err(message)
        },
    }
}

/// Judges the reply to a batch from end to end. The caller hands in the
/// parser of answers; it is called on the body only after the transport and
/// the status were found good, and at most once.
pub fn batch_reply<P: FnOnce(String) -> Result<Vec<StatementOutcome>, String>>(
    reply: Result<HttpReply, String>,
    parse: P,
) -> (out: Result<(), String>)
    requires
        forall|text: String| call_requires(parse, (text,)),
    ensures
        exists|parsed: Result<Vec<StatementOutcome>, String>|
            body_parsed(reply, parse, parsed) && (match batch_reply_judged(
                reply,
                parsed_view(parsed),
            ) {
                Ok(_) => out is Ok,
                Err(message) => out is Err && out.unwrap_err()@ == message,
            }),
{
    match check_status(reply) {
        Ok(body) => {
            let parsed = parse(body.clone());
            let out = batch_outcome(body.as_str(), &parsed);
            proof {
                assert(body_parsed(reply, parse, parsed));
            }
            out
        },
        Err(message) => {
            proof {
                let parsed: Result<Vec<StatementOutcome>, String> = Err(message);
                assert(body_parsed(reply, parse, parsed));
            }
            Err(message)
        },
    }
}

/// Judges the reply to a single statement whose outcome the caller looks
/// into itself, from end to end: the transport and the status first, then
/// the parser on the body, at most once.
pub fn query_reply<P: FnOnce(String) -> Result<Vec<StatementOutcome>, String>>(
    reply: Result<HttpReply, String>,
    parse: P,
) -> (out: Result<Vec<StatementOutcome>, String>)
    requires
        forall|text: String| call_requires(parse, (text,)),
    ensures
        match status_checked(reply) {
            Ok(body) => exists|parsed: Result<Vec<StatementOutcome>, String>|
                body_parsed(reply, parse, parsed) && (match parsed {
                    Ok(outcomes) => out == Ok::<Vec<StatementOutcome>, String>(outcomes),
                    Err(cause) => out is Err && out.unwrap_err()@ == query_failure_text(
                        cause@,
                        body,
                    ),
                }),
            Err(message) => out is Err && out.unwrap_err()@ == message,
        },
{
    match check_status(reply) {
        Ok(body) => {
            let parsed = parse(body.clone());
            proof {
                assert(body_parsed(reply, parse, parsed));
            }
            query_outcome(body.as_str(), parsed)
        },
        Err(message) => Err(message),
    }
}

/// The message for an endpoint of neither scheme.
pub open spec fn bad_scheme_text() -> Seq<char> {
    "URL must start with libsql:// or https://"@
}

/// What an endpoint is worth before it is tried: the address to send to, or
/// an error where it has neither the cloud scheme nor `https://`.
pub open spec fn endpoint_checked(url: Seq<char>) -> Result<Seq<char>, Seq<char>> {
    if has_prefix(url, "libsql://"@) {
        Ok(endpoint_text(url))
    } else if has_prefix(url, "https://"@) {
        Ok(url)
    } else {
        Err(bad_scheme_text())
    }
}

/// Checks an endpoint's scheme and gives the address to send to.
pub fn check_endpoint(url: &str) -> (out: Result<String, String>)
    ensures
        match endpoint_checked(url@) {
            Ok(address) => out is Ok && out.unwrap()@ == address,
            Err(message) => out is Err && out.unwrap_err()@ == message,
        },
{
    if starts_with_text(url, "libsql://") {
        Ok(rewrite_endpoint(url))
    } else if starts_with_text(url, "https://") {
        Ok(String::from_str(url))
    } else {
        Err(String::from_str("URL must start with libsql:// or https://"))
    }
}

/// The message for a token that the remote side does not accept.
pub open spec fn auth_failure_text() -> Seq<char> {
    "Authentication failed (Invalid Token)"@
}

/// What the reply to the trial statement says of the connection: a transport
/// failure, a rejected token (401 or 403), any other status outside 2xx, or
/// that the remote side is reachable and accepts the token.
pub open spec fn validation_judged(reply: Result<HttpReply, String>) -> Result<(), Seq<char>> {
    match reply {
        Ok(r) => if r.status == 401 || r.status == 403 {
            Err(auth_failure_text())
        } else if !is_success(r.status) {
            Err("Server returned error: "@ + r.status_text@)
        } else {
            Ok(())
        },
        Err(cause) => Err("Connection failed: "@ + cause@),
    }
}

/// Judges the reply to the trial statement that validates a connection.
pub fn validation_outcome(reply: &Result<HttpReply, String>) -> (out: Result<(), String>)
    ensures
        match validation_judged(*reply) {
            Ok(_) => out is Ok,
            Err(message) => out is Err && out.unwrap_err()@ == message,
        },
{
    match reply {
        Ok(r) => {
            if r.status == 401 || r.status == 403 {
                Err(String::from_str("Authentication failed (Invalid Token)"))
            } else if !(200 <= r.status && r.status < 300) {
                let mut text = String::from_str("Server returned error: ");
                text.append(r.status_text.as_str());
                Err(text)
            } else {
                Ok(())
            }
        },
        Err(cause) => {
            let mut text = String::from_str("Connection failed: ");
            text.append(cause.as_str());
            Err(text)
        },
    }
}

/// The statement list of the trial request that validates a connection.
pub fn validation_statements() -> (out: Vec<String>)
    ensures
        out.deep_view() == seq!["SELECT 1"@],
{
    let mut out: Vec<String> = Vec::new();
    out.push(String::from_str("SELECT 1"));
    proof {
        assert(out.deep_view() =~= seq!["SELECT 1"@]);
    }
    out
}

} // verus!
