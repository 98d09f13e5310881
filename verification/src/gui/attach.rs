//! What is sent to a window that shows a session, and what the window does with it.
use crate::json::{
    json_text, lemma_trimmed, one_line, parse_json, parsed, plain, print_json, put, Json, JsonModel,
    DEPTH,
};
use crate::log::codec::lemma_plain_insert;
use crate::session::Session;
use crate::text::{same, str_trim, trim};
use base64::Engine;
use vstd::prelude::*;

verus! {

/// The text that stands for bytes, as `base64` writes it with the standard alphabet and padding.
pub uninterp spec fn encoded(bytes: Seq<u8>) -> Seq<char>;

/// The bytes for which a text stands, as `base64` reads it with the standard alphabet and
/// padding.
pub uninterp spec fn decoded(text: Seq<char>) -> Option<Seq<u8>>;

/// `base64::engine::general_purpose::STANDARD.encode`. The text depends on the bytes alone, and
/// is read back as the same bytes.
#[verifier::external_body]
fn encode_base64(bytes: &[u8]) -> (r: String)
    ensures
        r@ == encoded(bytes@),
        decoded(r@) == Some(bytes@),
{
    base64::engine::general_purpose::STANDARD.encode(bytes)
}

/// `base64::engine::general_purpose::STANDARD.decode`. The bytes depend on the text alone.
#[verifier::external_body]
fn decode_base64(text: &str) -> (r: Option<Vec<u8>>)
    ensures
        match r {
            Some(bytes) => decoded(text@) == Some(bytes@),
            None => decoded(text@) is None,
        },
{
    base64::engine::general_purpose::STANDARD.decode(text).ok()
}

/// What a window does with a line: nothing, show bytes, close, or fail.
#[derive(Debug, Clone, PartialEq, Eq)]
pub enum AttachStep {
    Skip,
    Show(Vec<u8>),
    Close,
    Fail,
}

/// What a window does with a line.
pub enum AttachView {
    Skip,
    Show(Seq<u8>),
    Close,
    Fail,
}

impl View for AttachStep {
    type V = AttachView;

    open spec fn view(&self) -> AttachView {
        match *self {
            AttachStep::Skip => AttachView::Skip,
            AttachStep::Show(bytes) => AttachView::Show(bytes@),
            AttachStep::Close => AttachView::Close,
            AttachStep::Fail => AttachView::Fail,
        }
    }
}

/// What a window does with a message whose data were read as `data`: `None` where they cannot
/// be read.
pub open spec fn shown_data(has_data: bool, data: Option<Seq<u8>>) -> AttachView {
    if has_data {
        match data {
            Some(bytes) => AttachView::Show(bytes),
            None => AttachView::Fail,
        }
    } else {
        AttachView::Skip
    }
}

/// What a window does with a message.
pub open spec fn step_for(msg: JsonModel) -> AttachView {
    match msg.at("type"@).text() {
        Some(kind) => if kind == "replay"@ || kind == "data"@ {
            match msg.at("data"@).text() {
                Some(text) => shown_data(true, decoded(text)),
                None => shown_data(false, None),
            }
        } else if kind == "eof"@ {
            AttachView::Close
        } else {
            AttachView::Skip
        },
        None => AttachView::Skip,
    }
}

/// What a window does with a line.
pub open spec fn step_on(line: Seq<char>) -> AttachView {
    if trim(line).len() == 0 {
        AttachView::Skip
    } else {
        match parsed(trim(line)) {
            Some(msg) => step_for(msg),
            None => AttachView::Fail,
        }
    }
}

/// What a window does with data that were read.
pub fn shown(data: Option<Vec<u8>>) -> (r: AttachStep)
    ensures
        r@ == shown_data(
            true,
            match data {
                Some(bytes) => Some(bytes@),
                None => None,
            },
        ),
{
    match data {
        Some(bytes) => AttachStep::Show(bytes),
        None => AttachStep::Fail,
    }
}

/// What a window does with a message.
pub fn attach_message(msg: &Json) -> (r: AttachStep)
    ensures
        r@ == step_for(msg@),
{
    match msg.at("type").as_str() {
        Some(kind) => {
            if same(kind, "replay") || same(kind, "data") {
                match msg.at("data").as_str() {
                    Some(text) => shown(decode_base64(text)),
                    None => AttachStep::Skip,
                }
            } else if same(kind, "eof") {
                AttachStep::Close
            } else {
                AttachStep::Skip
            }
        },
        None => AttachStep::Skip,
    }
}

/// What a window does with a line.
pub fn attach_line(line: &str) -> (r: AttachStep)
    ensures
        r@ == step_on(line@),
{
    let trimmed = str_trim(line);
    if trimmed.is_empty() {
        return AttachStep::Skip;
    }
    match parse_json(trimmed) {
        Some(msg) => attach_message(&msg),
        None => AttachStep::Fail,
    }
}

/// A message with data.
pub open spec fn data_model(kind: Seq<char>, data: Seq<char>) -> JsonModel {
    JsonModel::Object(
        Map::<Seq<char>, JsonModel>::empty().insert("type"@, JsonModel::Str(kind)).insert(
            "data"@,
            JsonModel::Str(data),
        ),
    )
}

/// The message that there is no more to come.
pub open spec fn eof_model() -> JsonModel {
    JsonModel::Object(
        Map::<Seq<char>, JsonModel>::empty().insert("type"@, JsonModel::Str("eof"@)),
    )
}

/// A line with data.
fn data_line(kind: &str, bytes: &[u8]) -> (r: String)
    requires
        kind@ == "replay"@ || kind@ == "data"@,
    ensures
        one_line(r@),
        parsed(r@) == Some(data_model(kind@, encoded(bytes@))),
        step_on(r@) == AttachView::Show(bytes@),
{
    let text = encode_base64(bytes);
    let mut m: Vec<(String, Json)> = Vec::new();
    put(&mut m, "type", json_text(kind));
    put(&mut m, "data", json_text(text.as_str()));
    let json = Json::Object(m);
    let line = print_json(&json);
    proof {
        let m0 = Map::<Seq<char>, JsonModel>::empty();
        let m1 = m0.insert("type"@, JsonModel::Str(kind@));
        assert(plain(JsonModel::Object(m0), DEPTH as nat));
        lemma_plain_insert(m0, "type"@, JsonModel::Str(kind@), DEPTH as nat);
        lemma_plain_insert(m1, "data"@, JsonModel::Str(text@), DEPTH as nat);
        lemma_trimmed(line@);
        reveal_strlit("type");
        reveal_strlit("data");
        assert("type"@[0] != "data"@[0]);
    }
    line
}

/// The line that replays what a session's screen shows. A window that reads it draws the screen.
pub fn replay_line(session: &Session) -> (r: String)
    requires
        session@.cols > 0,
    ensures
        one_line(r@),
        parsed(r@) == Some(data_model("replay"@, encoded(session.parser.drawing()))),
        step_on(r@) == AttachView::Show(session.parser.drawing()),
{
    let bytes = session.parser.contents_formatted();
    data_line("replay", bytes.as_slice())
}

/// The line that streams output. A window that reads it shows the same bytes.
pub fn output_line(bytes: &[u8]) -> (r: String)
    ensures
        one_line(r@),
        parsed(r@) == Some(data_model("data"@, encoded(bytes@))),
        step_on(r@) == AttachView::Show(bytes@),
{
    data_line("data", bytes)
}

/// The line that says that there is no more to come.
pub fn eof_line() -> (r: String)
    ensures
        one_line(r@),
        parsed(r@) == Some(eof_model()),
        step_on(r@) == AttachView::Close,
{
    let mut m: Vec<(String, Json)> = Vec::new();
    put(&mut m, "type", json_text("eof"));
    let line = print_json(&Json::Object(m));
    proof {
        let m0 = Map::<Seq<char>, JsonModel>::empty();
        assert(plain(JsonModel::Object(m0), DEPTH as nat));
        lemma_plain_insert(m0, "type"@, JsonModel::Str("eof"@), DEPTH as nat);
        lemma_trimmed(line@);
        reveal_strlit("eof");
        reveal_strlit("replay");
        reveal_strlit("data");
        assert("eof"@.len() == 3 && "replay"@.len() == 6 && "data"@.len() == 4);
    }
    line
}

// ---------------------------------------------------------------------------------------------
// Laws

/// What a window does with a message: it shows the data of a replay and of output, fails where
/// these cannot be read, closes at the end, and passes over anything else.
pub proof fn law_what_a_window_does(msg: JsonModel)
    ensures
        ({
            let kind = match msg.get("type"@) {
                Some(JsonModel::Str(kind)) => Some(kind),
                _ => None,
            };
            let data = match msg.get("data"@) {
                Some(JsonModel::Str(data)) => Some(data),
                _ => None,
            };
            let shows = kind == Some("replay"@) || kind == Some("data"@);
            &&& step_for(msg) == AttachView::Close <==> kind == Some("eof"@)
            &&& shows && data is Some && decoded(data->0) is Some ==> step_for(msg)
                == AttachView::Show(decoded(data->0)->0)
            &&& step_for(msg) == AttachView::Fail <==> shows && data is Some && decoded(data->0)
                is None
            &&& step_for(msg) is Show <==> shows && data is Some && decoded(data->0) is Some
        }),
{
    reveal_strlit("eof");
    reveal_strlit("replay");
    reveal_strlit("data");
    assert("eof"@.len() == 3 && "replay"@.len() == 6 && "data"@.len() == 4);
}

/// What stands on a line: nothing where it is blank, and a failure where it is no JSON.
pub proof fn law_what_a_window_reads(line: Seq<char>)
    ensures
        trim(line).len() == 0 ==> step_on(line) == AttachView::Skip,
        trim(line).len() > 0 && parsed(trim(line)) is None ==> step_on(line) == AttachView::Fail,
        trim(line).len() > 0 && parsed(trim(line)) is Some ==> step_on(line) == step_for(
            parsed(trim(line))->0,
        ),
{
}

/// What is sent to a window is what it shows.
pub proof fn law_a_window_shows_what_is_sent(
    bytes: &[u8],
    output: String,
    end: String,
    session: &Session,
    replay: String,
)
    requires
        call_ensures(output_line, (bytes,), output),
        call_ensures(eof_line, (), end),
        call_ensures(replay_line, (session,), replay),
    ensures
        step_on(output@) == AttachView::Show(bytes@),
        step_on(end@) == AttachView::Close,
        step_on(replay@) == AttachView::Show(session.parser.drawing()),
{
}

} // verus!
