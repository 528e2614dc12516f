//! The summary generator: the template that always works, the request to
//! a remote text generator, and the rules by which a failed request is
//! tried again or given up.

use vstd::prelude::*;
use crate::text::{
    concat2, first_chars, has_substring, strip_trailing, take_chars, text_contains,
    without_trailing,
};

verus! {

/// The template keeps this many characters of the content.
pub const SNIPPET_CHARS: usize = 20;

/// A request carries at most this many characters of the content.
pub const PROMPT_CONTENT_CHARS: usize = 3000;

/// A summary is asked for at most this many times.
pub const MAX_ATTEMPTS: u32 = 3;

/// The length that the remote generator is asked to stay within.
pub const MAX_TOKENS: u32 = 200;

/// A request is given up after this many seconds.
pub const REQUEST_TIMEOUT_SECS: u64 = 30;

/// The words by which a template summary is known again.
pub open spec fn template_marker() -> Seq<char> {
    "This English-language piece centers on"@
}

/// The template summary of an article: fixed words around its title and
/// the first `SNIPPET_CHARS` characters of its content.
pub open spec fn template_summary(title: Seq<char>, content: Seq<char>) -> Seq<char> {
    template_marker() + " '"@ + title + "', covering "@ + first_chars(
        content,
        SNIPPET_CHARS as nat,
    ) + " among other key points. Click through for the full article."@
}

/// The template summary, which needs nothing but the article itself and is
/// the fallback wherever the remote generator is not used or fails. The
/// source does not enter into it.
pub fn make_zh_brief(title: &str, content: &str, _source: &str) -> (r: String)
    ensures
        r@ == template_summary(title@, content@),
{
    let snippet = take_chars(content, SNIPPET_CHARS);
    let mut r = "This English-language piece centers on".to_owned();
    r.append(" '");
    r.append(title);
    r.append("', covering ");
    r.append(snippet.as_str());
    r.append(" among other key points. Click through for the full article.");
    r
}

/// The template summary is a function of title and content alone: two
/// calls on the same article give the same text, whatever source each
/// names.
pub proof fn lemma_template_is_deterministic(
    title: Seq<char>,
    content: Seq<char>,
    first: Seq<char>,
    second: Seq<char>,
)
    requires
        first == template_summary(title, content),
        second == template_summary(title, content),
    ensures
        first == second,
        has_substring(first, template_marker()),
{
    lemma_template_holds_marker(title, content);
}

/// Every template summary begins with the marker.
pub proof fn lemma_template_holds_marker(title: Seq<char>, content: Seq<char>)
    ensures
        has_substring(template_summary(title, content), template_marker()),
{
    let t = template_summary(title, content);
    let m = template_marker();
    assert(t.subrange(0, 0 + m.len() as int) =~= m);
    assert(crate::text::occurs_at(t, m, 0));
}

/// A stored summary is due for regeneration where it is empty or still
/// holds the words of the template.
pub open spec fn is_stale_summary(summary: Seq<char>) -> bool {
    summary.len() == 0 || has_substring(summary, template_marker())
}

/// Whether a stored summary is due for regeneration.
pub fn needs_regeneration(summary: &str) -> (r: bool)
    ensures
        r == is_stale_summary(summary@),
{
    summary.is_empty() || text_contains(summary, "This English-language piece centers on")
}

/// What is sent to the remote generator for one article.
#[derive(Debug)]
pub struct ChatRequest {
    pub endpoint: String,
    pub authorization: String,
    pub model: String,
    pub system: String,
    pub user: String,
    pub max_tokens: u32,
    pub timeout_secs: u64,
}

/// What a `ChatRequest` holds, as plain values.
pub struct ChatRequestView {
    pub endpoint: Seq<char>,
    pub authorization: Seq<char>,
    pub model: Seq<char>,
    pub system: Seq<char>,
    pub user: Seq<char>,
    pub max_tokens: u32,
    pub timeout_secs: u64,
}

impl View for ChatRequest {
    type V = ChatRequestView;

    open spec fn view(&self) -> ChatRequestView {
        ChatRequestView {
            endpoint: self.endpoint@,
            authorization: self.authorization@,
            model: self.model@,
            system: self.system@,
            user: self.user@,
            max_tokens: self.max_tokens,
            timeout_secs: self.timeout_secs,
        }
    }
}

/// The instruction that goes with every request.
pub open spec fn system_instruction() -> Seq<char> {
    "Summarize the following content in its source language, in no more than 100 characters, highlighting the key points."@
}

/// Where requests are sent: below the base address, whose trailing slashes
/// do not count.
pub open spec fn chat_endpoint_of(base_url: Seq<char>) -> Seq<char> {
    without_trailing(base_url, '/') + "/chat/completions"@
}

/// The message that asks for the summary of an article. Of the content the
/// first `PROMPT_CONTENT_CHARS` characters are sent, counted as characters
/// and not as bytes.
pub open spec fn summary_prompt_of(title: Seq<char>, content: Seq<char>) -> Seq<char> {
    "标题："@ + title + "\n\n内容："@ + first_chars(content, PROMPT_CONTENT_CHARS as nat)
}

/// The request that carries the message `user`.
pub open spec fn chat_request_of(
    base_url: Seq<char>,
    api_key: Seq<char>,
    model: Seq<char>,
    user: Seq<char>,
) -> ChatRequestView {
    ChatRequestView {
        endpoint: chat_endpoint_of(base_url),
        authorization: "Bearer "@ + api_key,
        model,
        system: system_instruction(),
        user,
        max_tokens: MAX_TOKENS,
        timeout_secs: REQUEST_TIMEOUT_SECS,
    }
}

/// The address that requests are sent to.
pub fn chat_endpoint(base_url: &str) -> (r: String)
    ensures
        r@ == chat_endpoint_of(base_url@),
{
    let mut r = strip_trailing(base_url, '/');
    r.append("/chat/completions");
    r
}

/// The message that asks for the summary of an article.
pub fn summary_prompt(title: &str, content: &str) -> (r: String)
    ensures
        r@ == summary_prompt_of(title@, content@),
{
    let cut = take_chars(content, PROMPT_CONTENT_CHARS);
    let mut r = "标题：".to_owned();
    r.append(title);
    r.append("\n\n内容：");
    r.append(cut.as_str());
    r
}

/// The request that carries the message `user`.
pub fn chat_request(base_url: &str, api_key: &str, model: &str, user: &str) -> (r: ChatRequest)
    ensures
        r@ == chat_request_of(base_url@, api_key@, model@, user@),
{
    ChatRequest {
        endpoint: chat_endpoint(base_url),
        authorization: concat2("Bearer ", api_key),
        model: model.to_owned(),
        system: "Summarize the following content in its source language, in no more than 100 characters, highlighting the key points.".to_owned(),
        user: user.to_owned(),
        max_tokens: MAX_TOKENS,
        timeout_secs: REQUEST_TIMEOUT_SECS,
    }
}

/// The request for the summary of one article.
pub fn summary_request(base_url: &str, api_key: &str, model: &str, title: &str, content: &str) -> (r:
    ChatRequest)
    ensures
        r@ == chat_request_of(base_url@, api_key@, model@, summary_prompt_of(title@, content@)),
{
    let user = summary_prompt(title, content);
    chat_request(base_url, api_key, model, user.as_str())
}

/// What the body of an answer holds at the place where the summary is
/// expected.
#[derive(Debug)]
pub enum Reply {
    /// The body is no JSON document; the text says why.
    Malformed(String),
    /// The body is a JSON document with no text at that place.
    Empty,
    /// The text at that place.
    Content(String),
}

/// What a `Reply` holds, as plain texts.
pub enum ReplyView {
    Malformed(Seq<char>),
    Empty,
    Content(Seq<char>),
}

impl View for Reply {
    type V = ReplyView;

    open spec fn view(&self) -> ReplyView {
        match self {
            Reply::Malformed(e) => ReplyView::Malformed(e@),
            Reply::Empty => ReplyView::Empty,
            Reply::Content(s) => ReplyView::Content(s@),
        }
    }
}

/// What the JSON document `body` holds under the key `list`, there at the
/// position `index`, there under the key `holder`, there under the key
/// `field`.
pub uninterp spec fn json_text_at(
    body: Seq<char>,
    list: Seq<char>,
    index: usize,
    holder: Seq<char>,
    field: Seq<char>,
) -> ReplyView;

/// `serde_json::from_str` to a `serde_json::Value`, indexed four times
/// with `Value`'s `Index` and read through `Value::as_str`; a parse
/// failure is handed on by its `Display` text. The contract only names the
/// result: the same body and path always give the same reply.
#[verifier::external_body]
pub(crate) fn json_text(body: &str, list: &str, index: usize, holder: &str, field: &str) -> (r:
    Reply)
    ensures
        r@ == json_text_at(body@, list@, index, holder@, field@),
{
    match serde_json::from_str::<serde_json::Value>(body) {
        Ok(v) => match v[list][index][holder][field].as_str() {
            Some(s) => Reply::Content(s.to_string()),
            None => Reply::Empty,
        },
        Err(e) => Reply::Malformed(e.to_string()),
    }
}

/// What an answer says: the text of the message of its first choice.
pub open spec fn reply_of(body: Seq<char>) -> ReplyView {
    json_text_at(body, "choices"@, 0, "message"@, "content"@)
}

/// Reads the summary off the body of an answer.
pub fn read_reply(body: &str) -> (r: Reply)
    ensures
        r@ == reply_of(body@),
{
    json_text(body, "choices", 0, "message", "content")
}

/// How one attempt to reach the remote generator ended.
#[derive(Debug)]
pub enum SendOutcome {
    /// The request did not complete; the text says why.
    Transport(String),
    /// The answer came with a status other than success.
    Rejected { status: String, body: String },
    /// The answer came with a success status and this body.
    Answered(String),
    /// The answer came with a success status, but its body could not be
    /// read; the text says why.
    Unreadable(String),
}

/// What a `SendOutcome` holds, as plain texts.
pub enum SendOutcomeView {
    Transport(Seq<char>),
    Rejected { status: Seq<char>, body: Seq<char> },
    Answered(Seq<char>),
    Unreadable(Seq<char>),
}

impl View for SendOutcome {
    type V = SendOutcomeView;

    open spec fn view(&self) -> SendOutcomeView {
        match self {
            SendOutcome::Transport(e) => SendOutcomeView::Transport(e@),
            SendOutcome::Rejected { status, body } => SendOutcomeView::Rejected {
                status: status@,
                body: body@,
            },
            SendOutcome::Answered(b) => SendOutcomeView::Answered(b@),
            SendOutcome::Unreadable(e) => SendOutcomeView::Unreadable(e@),
        }
    }
}

/// Why no summary came from the remote generator.
#[derive(Debug)]
pub enum SummaryError {
    /// The last attempt did not complete.
    Transport(String),
    /// The last attempt was answered with a status other than success.
    Rejected { status: String, body: String },
    /// An answer came that is no JSON document.
    Malformed(String),
    /// An answer came that holds no summary.
    NoContent,
}

/// What a `SummaryError` holds, as plain texts.
pub enum SummaryErrorView {
    Transport(Seq<char>),
    Rejected { status: Seq<char>, body: Seq<char> },
    Malformed(Seq<char>),
    NoContent,
}

impl View for SummaryError {
    type V = SummaryErrorView;

    open spec fn view(&self) -> SummaryErrorView {
        match self {
            SummaryError::Transport(e) => SummaryErrorView::Transport(e@),
            SummaryError::Rejected { status, body } => SummaryErrorView::Rejected {
                status: status@,
                body: body@,
            },
            SummaryError::Malformed(e) => SummaryErrorView::Malformed(e@),
            SummaryError::NoContent => SummaryErrorView::NoContent,
        }
    }
}

/// The message of an error, for the user.
pub open spec fn error_message(e: SummaryErrorView) -> Seq<char> {
    match e {
        SummaryErrorView::Transport(why) => "API 请求失败："@ + why,
        SummaryErrorView::Rejected { status, body } => "API 返回错误 ("@ + status + "): "@
            + body,
        SummaryErrorView::Malformed(why) => "解析响应失败："@ + why,
        SummaryErrorView::NoContent => "API 响应格式错误"@,
    }
}

impl SummaryError {
    /// The message of this error, for the user.
    pub fn message(&self) -> (r: String)
        ensures
            r@ == error_message(self@),
    {
        match self {
            SummaryError::Transport(why) => concat2("API 请求失败：", why.as_str()),
            SummaryError::Rejected { status, body } => {
                let mut r = "API 返回错误 (".to_owned();
                r.append(status.as_str());
                r.append("): ");
                r.append(body.as_str());
                r
            },
            SummaryError::Malformed(why) => concat2("解析响应失败：", why.as_str()),
            SummaryError::NoContent => "API 响应格式错误".to_owned(),
        }
    }
}

/// What to do after an attempt.
#[derive(Debug)]
pub enum NextStep {
    /// Wait this many seconds, then try again.
    Wait(u64),
    /// The summary is there.
    Done(String),
    /// No summary will come.
    Failed(SummaryError),
}

/// What a `NextStep` holds, as plain values.
pub enum NextStepView {
    Wait(u64),
    Done(Seq<char>),
    Failed(SummaryErrorView),
}

impl View for NextStep {
    type V = NextStepView;

    open spec fn view(&self) -> NextStepView {
        match self {
            NextStep::Wait(s) => NextStepView::Wait(*s),
            NextStep::Done(s) => NextStepView::Done(s@),
            NextStep::Failed(e) => NextStepView::Failed(e@),
        }
    }
}

/// The seconds to wait after the attempt of the given number, counted
/// from one, before the next.
pub open spec fn backoff_after(attempt: int) -> u64 {
    if attempt <= 1 {
        2
    } else if attempt == 2 {
        4
    } else {
        8
    }
}

/// An attempt is tried again where the request did not complete or was
/// answered with a status other than success. An answer with a success
/// status ends the call, whether it can be read or not.
pub open spec fn is_retried(outcome: SendOutcomeView) -> bool {
    outcome is Transport || outcome is Rejected
}

/// What a failed attempt leaves behind as the error of the whole call.
pub open spec fn failure_of(outcome: SendOutcomeView) -> SummaryErrorView {
    match outcome {
        SendOutcomeView::Transport(why) => SummaryErrorView::Transport(why),
        SendOutcomeView::Rejected { status, body } => SummaryErrorView::Rejected { status, body },
        SendOutcomeView::Answered(_) => SummaryErrorView::NoContent,
        SendOutcomeView::Unreadable(why) => SummaryErrorView::Malformed(why),
    }
}

/// What an answered attempt comes to. It ends the call either way: an
/// answer that holds no summary is not asked for again.
pub open spec fn answer_step(body: Seq<char>) -> NextStepView {
    match reply_of(body) {
        ReplyView::Content(s) => NextStepView::Done(s),
        ReplyView::Malformed(why) => NextStepView::Failed(SummaryErrorView::Malformed(why)),
        ReplyView::Empty => NextStepView::Failed(SummaryErrorView::NoContent),
    }
}

/// The step that follows the attempt of number `attempt`, counted from
/// one. A failed attempt is followed by a wait and another attempt until
/// `MAX_ATTEMPTS` are made; the last failure is not waited after.
pub open spec fn step_after(attempt: int, outcome: SendOutcomeView) -> NextStepView {
    match outcome {
        SendOutcomeView::Answered(body) => answer_step(body),
        SendOutcomeView::Unreadable(why) => NextStepView::Failed(SummaryErrorView::Malformed(why)),
        _ => if attempt >= MAX_ATTEMPTS {
            NextStepView::Failed(failure_of(outcome))
        } else {
            NextStepView::Wait(backoff_after(attempt))
        },
    }
}

/// The steps of a call whose attempts end as `outcomes` say, from the
/// attempt of number `attempt` on, up to the step that ends the call.
pub open spec fn steps_from(attempt: int, outcomes: Seq<SendOutcomeView>) -> Seq<NextStepView>
    decreases outcomes.len(),
{
    if outcomes.len() == 0 {
        Seq::empty()
    } else {
        let step = step_after(attempt, outcomes[0]);
        if step is Wait {
            seq![step] + steps_from(attempt + 1, outcomes.drop_first())
        } else {
            seq![step]
        }
    }
}

/// How many of `steps` are waits.
pub open spec fn waits_in(steps: Seq<NextStepView>) -> nat
    decreases steps.len(),
{
    if steps.len() == 0 {
        0
    } else if steps.last() is Wait {
        waits_in(steps.drop_last()) + 1
    } else {
        waits_in(steps.drop_last())
    }
}

/// A call for one summary, which remembers how often it was tried.
#[derive(Debug)]
pub struct SummaryCall {
    attempts: u32,
}

impl SummaryCall {
    /// The attempts made so far.
    pub closed spec fn made(&self) -> int {
        self.attempts as int
    }

    /// A call that has not been tried yet.
    pub fn new() -> (c: SummaryCall)
        ensures
            c.made() == 0,
    {
        SummaryCall { attempts: 0 }
    }

    /// The attempts made so far.
    pub fn attempts(&self) -> (n: u32)
        ensures
            n == self.made(),
    {
        self.attempts
    }

    /// Takes note of how an attempt ended and says what to do next.
    pub fn record(&mut self, outcome: SendOutcome) -> (step: NextStep)
        ensures
            final(self).made() == if old(self).made() < u32::MAX {
                old(self).made() + 1
            } else {
                old(self).made()
            },
            step@ == step_after(final(self).made(), outcome@),
    {
        if self.attempts < u32::MAX {
            self.attempts = self.attempts + 1;
        }
        match outcome {
            SendOutcome::Answered(body) => match read_reply(body.as_str()) {
                Reply::Content(s) => NextStep::Done(s),
                Reply::Malformed(why) => NextStep::Failed(SummaryError::Malformed(why)),
                Reply::Empty => NextStep::Failed(SummaryError::NoContent),
            },
            SendOutcome::Unreadable(why) => NextStep::Failed(SummaryError::Malformed(why)),
            SendOutcome::Transport(why) => {
                if self.attempts >= MAX_ATTEMPTS {
                    NextStep::Failed(SummaryError::Transport(why))
                } else if self.attempts <= 1 {
                    NextStep::Wait(2)
                } else {
                    NextStep::Wait(4)
                }
            },
            SendOutcome::Rejected { status, body } => {
                if self.attempts >= MAX_ATTEMPTS {
                    NextStep::Failed(SummaryError::Rejected { status, body })
                } else if self.attempts <= 1 {
                    NextStep::Wait(2)
                } else {
                    NextStep::Wait(4)
                }
            },
        }
    }
}

/// What a request that is tried once comes to: the summary of its answer,
/// or the error that the attempt leaves behind.
pub open spec fn single_result(outcome: SendOutcomeView) -> Result<Seq<char>, SummaryErrorView> {
    match outcome {
        SendOutcomeView::Answered(body) => match reply_of(body) {
            ReplyView::Content(s) => Ok(s),
            ReplyView::Malformed(why) => Err(SummaryErrorView::Malformed(why)),
            ReplyView::Empty => Err(SummaryErrorView::NoContent),
        },
        _ => Err(failure_of(outcome)),
    }
}

/// The result with its texts as plain values.
pub open spec fn result_view(r: Result<String, SummaryError>) -> Result<
    Seq<char>,
    SummaryErrorView,
> {
    match r {
        Ok(s) => Ok(s@),
        Err(e) => Err(e@),
    }
}

/// A request that is tried once and never again, as for a summary that
/// the user asks for by hand.
pub fn single_attempt(outcome: SendOutcome) -> (r: Result<String, SummaryError>)
    ensures
        result_view(r) == single_result(outcome@),
{
    match outcome {
        SendOutcome::Answered(body) => match read_reply(body.as_str()) {
            Reply::Content(s) => Ok(s),
            Reply::Malformed(why) => Err(SummaryError::Malformed(why)),
            Reply::Empty => Err(SummaryError::NoContent),
        },
        SendOutcome::Unreadable(why) => Err(SummaryError::Malformed(why)),
        SendOutcome::Transport(why) => Err(SummaryError::Transport(why)),
        SendOutcome::Rejected { status, body } => Err(SummaryError::Rejected { status, body }),
    }
}

/// The retry budget: a call whose first three attempts all fail waits two
/// seconds after the first, four after the second, and fails after the
/// third without waiting again. It waits exactly twice.
pub proof fn lemma_retry_budget(outcomes: Seq<SendOutcomeView>)
    requires
        outcomes.len() >= 3,
        is_retried(outcomes[0]),
        is_retried(outcomes[1]),
        is_retried(outcomes[2]),
    ensures
        steps_from(1, outcomes) == seq![
            NextStepView::Wait(2),
            NextStepView::Wait(4),
            NextStepView::Failed(failure_of(outcomes[2])),
        ],
        waits_in(steps_from(1, outcomes)) == 2,
{
    let rest1 = outcomes.drop_first();
    let rest2 = rest1.drop_first();
    assert(rest1[0] == outcomes[1]);
    assert(rest2[0] == outcomes[2]);
    assert(steps_from(3, rest2) == seq![NextStepView::Failed(failure_of(outcomes[2]))]);
    assert(steps_from(2, rest1) == seq![NextStepView::Wait(4)] + steps_from(3, rest2));
    assert(steps_from(1, outcomes) == seq![NextStepView::Wait(2)] + steps_from(2, rest1));
    let s = steps_from(1, outcomes);
    let expected = seq![
        NextStepView::Wait(2),
        NextStepView::Wait(4),
        NextStepView::Failed(failure_of(outcomes[2])),
    ];
    assert(s =~= expected);
    let s2 = s.drop_last();
    let s1 = s2.drop_last();
    let s0 = s1.drop_last();
    assert(s2 =~= seq![NextStepView::Wait(2), NextStepView::Wait(4)]);
    assert(s1 =~= seq![NextStepView::Wait(2)]);
    assert(s0 =~= Seq::<NextStepView>::empty());
    assert(waits_in(s0) == 0);
    assert(waits_in(s1) == 1);
    assert(waits_in(s2) == 2);
    assert(waits_in(s) == 2);
}

/// A call never waits after its last attempt, and never more than
/// `MAX_ATTEMPTS - 1` times in all.
pub proof fn lemma_waits_are_bounded(attempt: int, outcomes: Seq<SendOutcomeView>)
    requires
        1 <= attempt <= MAX_ATTEMPTS,
    ensures
        waits_in(steps_from(attempt, outcomes)) <= MAX_ATTEMPTS - attempt,
    decreases outcomes.len(),
{
    if outcomes.len() > 0 {
        let step = step_after(attempt, outcomes[0]);
        if step is Wait {
            let rest = steps_from(attempt + 1, outcomes.drop_first());
            lemma_waits_are_bounded(attempt + 1, outcomes.drop_first());
            lemma_waits_in_prepend(step, rest);
        } else {
            assert(seq![step].drop_last() =~= Seq::<NextStepView>::empty());
            assert(waits_in(seq![step].drop_last()) == 0);
        }
    }
}

/// A step put in front counts as it would at the end.
pub proof fn lemma_waits_in_prepend(step: NextStepView, rest: Seq<NextStepView>)
    ensures
        waits_in(seq![step] + rest) == waits_in(rest) + if step is Wait {
            1nat
        } else {
            0nat
        },
    decreases rest.len(),
{
    let whole = seq![step] + rest;
    if rest.len() == 0 {
        assert(whole.drop_last() =~= Seq::<NextStepView>::empty());
        assert(whole.last() == step);
        assert(waits_in(whole.drop_last()) == 0);
    } else {
        assert(whole.drop_last() =~= seq![step] + rest.drop_last());
        assert(whole.last() == rest.last());
        lemma_waits_in_prepend(step, rest.drop_last());
    }
}

/// The summary that an article gets in the end: what the remote generator
/// said, or the template where it said nothing.
pub open spec fn final_summary(
    remote: Option<Seq<char>>,
    title: Seq<char>,
    content: Seq<char>,
) -> Seq<char> {
    match remote {
        Some(s) => s,
        None => template_summary(title, content),
    }
}

/// Settles on a summary: that of the remote generator where it gave one,
/// else the template. Never fails.
pub fn summary_or_fallback(
    remote: Result<String, SummaryError>,
    title: &str,
    content: &str,
    source: &str,
) -> (r: String)
    ensures
        r@ == final_summary(
            match remote {
                Ok(s) => Some(s@),
                Err(_) => None,
            },
            title@,
            content@,
        ),
{
    match remote {
        Ok(s) => s,
        Err(_) => make_zh_brief(title, content, source),
    }
}

} // verus!
