//! A scripted provider for tests: it answers each request with the next of a
//! queue of canned responses, once each or round and round.
use vstd::prelude::*;
use crate::types::{Content, ContentV, Message, MessageV, StopReason, Usage, contents_view};
use crate::provider::events::{StreamEvent, StreamEventV, events_view};
use crate::strs::{copy_string, decimal, push_decimal, push_str, to_owned_string};

verus! {

broadcast use vstd::string::group_string_axioms;

/// A canned tool call: the tool's name and the JSON text of its arguments.
#[derive(Debug)]
pub struct MockToolCall {
    pub name: String,
    pub arguments: String,
}

/// A canned response: a text, or a list of tool calls.
#[derive(Debug)]
pub enum MockResponse {
    Text(String),
    ToolCalls(Vec<MockToolCall>),
}

/// The value of a [`MockResponse`]: texts as character sequences, tool calls
/// as (name, arguments) pairs.
pub enum MockResponseV {
    Text(Seq<char>),
    ToolCalls(Seq<(Seq<char>, Seq<char>)>),
}

impl View for MockResponse {
    type V = MockResponseV;

    open spec fn view(&self) -> MockResponseV {
        match self {
            MockResponse::Text(t) => MockResponseV::Text(t@),
            MockResponse::ToolCalls(cs) => MockResponseV::ToolCalls(
                cs@.map_values(|c: MockToolCall| (c.name@, c.arguments@)),
            ),
        }
    }
}

/// The values of a list of responses.
pub open spec fn responses_view(v: Seq<MockResponse>) -> Seq<MockResponseV> {
    v.map_values(|r: MockResponse| r@)
}

/// A queue of canned responses.
pub struct MockProvider {
    responses: Vec<MockResponse>,
    repeat: bool,
}

/// The value of a [`MockProvider`]: the queue and whether it repeats.
pub struct MockProviderV {
    pub queue: Seq<MockResponseV>,
    pub repeat: bool,
}

impl View for MockProvider {
    type V = MockProviderV;

    closed spec fn view(&self) -> MockProviderV {
        MockProviderV { queue: responses_view(self.responses@), repeat: self.repeat }
    }
}

/// The response given once the queue is empty.
pub open spec fn exhausted_response() -> MockResponseV {
    MockResponseV::Text("(no more mock responses)"@)
}

/// The response to the next request, and the provider afterwards: the front of
/// the queue, which goes to the back when the queue repeats.
pub open spec fn take_next(p: MockProviderV) -> (MockResponseV, MockProviderV) {
    if p.queue.len() == 0 {
        (exhausted_response(), p)
    } else {
        let front = p.queue[0];
        (
            front,
            MockProviderV {
                queue: if p.repeat { p.queue.drop_first().push(front) } else { p.queue.drop_first() },
                ..p
            },
        )
    }
}

/// The provider after `k` requests.
pub open spec fn after_requests(p: MockProviderV, k: nat) -> MockProviderV
    decreases k,
{
    if k == 0 {
        p
    } else {
        take_next(after_requests(p, (k - 1) as nat)).1
    }
}

/// The id of the `i`th canned tool call.
pub open spec fn mock_call_id(i: nat) -> Seq<char> {
    "mock-tool-"@ + decimal(i)
}

/// The content of the message answering with `calls`.
pub open spec fn mock_call_blocks(calls: Seq<(Seq<char>, Seq<char>)>) -> Seq<ContentV> {
    Seq::new(calls.len(), |i: int| ContentV::ToolCall { id: mock_call_id(i as nat), name: calls[i].0, arguments: calls[i].1 })
}

/// The events announcing the canned tool calls: a start and an end for each.
pub open spec fn mock_call_events(calls: Seq<(Seq<char>, Seq<char>)>) -> Seq<StreamEventV>
    decreases calls.len(),
{
    if calls.len() == 0 {
        seq![]
    } else {
        let i = (calls.len() - 1) as nat;
        mock_call_events(calls.drop_last()) + seq![
            StreamEventV::ToolCallStart { content_index: i as usize, id: mock_call_id(i), name: calls.last().0 },
            StreamEventV::ToolCallEnd { content_index: i as usize },
        ]
    }
}

/// The message answering a request with `r`.
pub open spec fn mock_message(r: MockResponseV, timestamp: u64) -> MessageV {
    MessageV::Assistant {
        content: match r {
            MockResponseV::Text(t) => seq![ContentV::Text { text: t }],
            MockResponseV::ToolCalls(calls) => mock_call_blocks(calls),
        },
        stop_reason: match r {
            MockResponseV::Text(_) => StopReason::Stop,
            MockResponseV::ToolCalls(_) => StopReason::ToolUse,
        },
        model: "mock"@,
        provider: "mock"@,
        usage: Usage { input: 0, output: 0, reasoning: 0, cache_read: 0, cache_write: 0, total_tokens: 0 },
        timestamp,
        error_message: None,
    }
}

/// The events streamed while answering with `r`: a start, the text or the
/// tool calls, and the finished message.
pub open spec fn mock_events(r: MockResponseV, timestamp: u64) -> Seq<StreamEventV> {
    seq![StreamEventV::Start] + match r {
        MockResponseV::Text(t) => seq![StreamEventV::TextDelta { content_index: 0, delta: t }],
        MockResponseV::ToolCalls(calls) => mock_call_events(calls),
    } + seq![StreamEventV::Done { message: mock_message(r, timestamp) }]
}

fn clone_response(r: &MockResponse) -> (c: MockResponse)
    ensures
        c@ == r@,
{
    match r {
        MockResponse::Text(t) => MockResponse::Text(copy_string(t)),
        MockResponse::ToolCalls(cs) => {
            let mut out: Vec<MockToolCall> = Vec::new();
            let mut i: usize = 0;
            while i < cs.len()
                invariant
                    0 <= i <= cs.len(),
                    out@.map_values(|c: MockToolCall| (c.name@, c.arguments@))
                        == cs@.take(i as int).map_values(|c: MockToolCall| (c.name@, c.arguments@)),
                decreases cs.len() - i,
            {
                let ghost before = out@.map_values(|c: MockToolCall| (c.name@, c.arguments@));
                out.push(MockToolCall { name: copy_string(&cs[i].name), arguments: copy_string(&cs[i].arguments) });
                assert(out@.map_values(|c: MockToolCall| (c.name@, c.arguments@))
                    =~= before.push((cs@[i as int].name@, cs@[i as int].arguments@)));
                assert(cs@.take(i + 1) =~= cs@.take(i as int).push(cs@[i as int]));
                i = i + 1;
                assert(out@.map_values(|c: MockToolCall| (c.name@, c.arguments@))
                    =~= cs@.take(i as int).map_values(|c: MockToolCall| (c.name@, c.arguments@)));
            }
            assert(cs@.take(cs.len() as int) =~= cs@);
            MockResponse::ToolCalls(out)
        },
    }
}

impl MockProvider {
    /// The identifier this provider reports.
    pub fn provider_id(&self) -> (r: &'static str)
        ensures
            r@ == "mock"@,
    {
        "mock"
    }

    /// Answers with each response once, then with the exhausted text.
    pub fn new(responses: Vec<MockResponse>) -> (r: MockProvider)
        ensures
            r@ == (MockProviderV { queue: responses_view(responses@), repeat: false }),
    {
        MockProvider { responses, repeat: false }
    }

    /// Answers with the responses in order, round and round if `repeat`.
    pub fn with_repeat(responses: Vec<MockResponse>, repeat: bool) -> (r: MockProvider)
        ensures
            r@ == (MockProviderV { queue: responses_view(responses@), repeat }),
    {
        MockProvider { responses, repeat }
    }

    /// Answers with the responses in order, round and round.
    pub fn repeating(responses: Vec<MockResponse>) -> (r: MockProvider)
        ensures
            r@ == (MockProviderV { queue: responses_view(responses@), repeat: true }),
    {
        MockProvider::with_repeat(responses, true)
    }

    /// Always answers with `text`.
    pub fn text(text: String) -> (r: MockProvider)
        ensures
            r@ == (MockProviderV { queue: seq![MockResponseV::Text(text@)], repeat: true }),
    {
        let mut v: Vec<MockResponse> = Vec::new();
        v.push(MockResponse::Text(text));
        assert(responses_view(v@) =~= seq![MockResponseV::Text(v@[0]@->Text_0)]);
        MockProvider::repeating(v)
    }

    /// Answers once with each text, in order.
    pub fn texts(texts: Vec<String>) -> (r: MockProvider)
        ensures
            r@ == (MockProviderV {
                queue: texts@.map_values(|t: String| MockResponseV::Text(t@)),
                repeat: false,
            }),
    {
        let mut v: Vec<MockResponse> = Vec::new();
        let mut rest = texts;
        let ghost all = rest@;
        while rest.len() > 0
            invariant
                responses_view(v@) + rest@.map_values(|t: String| MockResponseV::Text(t@))
                    == all.map_values(|t: String| MockResponseV::Text(t@)),
            decreases rest.len(),
        {
            let ghost r0 = rest@;
            let t = rest.remove(0);
            let ghost before = responses_view(v@);
            v.push(MockResponse::Text(t));
            assert(responses_view(v@) =~= before.push(MockResponseV::Text(r0[0]@)));
            assert(r0.map_values(|t: String| MockResponseV::Text(t@)) =~= seq![MockResponseV::Text(r0[0]@)]
                + rest@.map_values(|t: String| MockResponseV::Text(t@)));
            assert(responses_view(v@) + rest@.map_values(|t: String| MockResponseV::Text(t@))
                =~= before + r0.map_values(|t: String| MockResponseV::Text(t@)));
        }
        assert(responses_view(v@) =~= responses_view(v@) + rest@.map_values(|t: String| MockResponseV::Text(t@)));
        MockProvider::new(v)
    }

    /// Takes the response to the next request.
    pub fn next_response(&mut self) -> (r: MockResponse)
        ensures
            (r@, final(self)@) == take_next(old(self)@),
    {
        if self.responses.len() == 0 {
            return MockResponse::Text(to_owned_string("(no more mock responses)"));
        }
        let ghost q = responses_view(self.responses@);
        let front = self.responses.remove(0);
        assert(responses_view(self.responses@) =~= q.drop_first());
        if self.repeat {
            self.responses.push(clone_response(&front));
            assert(responses_view(self.responses@) =~= q.drop_first().push(q[0]));
        }
        front
    }
}

/// The events to stream and the message for answering with `r`.
pub fn respond(r: MockResponse, timestamp: u64) -> (out: (Vec<StreamEvent>, Message))
    ensures
        events_view(out.0@) == mock_events(r@, timestamp),
        out.1@ == mock_message(r@, timestamp),
{
    let ghost rv = r@;
    let mut events: Vec<StreamEvent> = Vec::new();
    events.push(StreamEvent::Start);
    let msg = match r {
        MockResponse::Text(text) => {
            events.push(StreamEvent::TextDelta { content_index: 0, delta: copy_string(&text) });
            let mut content: Vec<Content> = Vec::new();
            content.push(Content::Text { text });
            assert(contents_view(content@) =~= seq![ContentV::Text { text: rv->Text_0 }]);
            Message::Assistant {
                content,
                stop_reason: StopReason::Stop,
                model: to_owned_string("mock"),
                provider: to_owned_string("mock"),
                usage: Usage::default(),
                timestamp,
                error_message: None,
            }
        },
        MockResponse::ToolCalls(calls) => {
            let ghost cv = rv->ToolCalls_0;
            let mut content: Vec<Content> = Vec::new();
            let mut i: usize = 0;
            while i < calls.len()
                invariant
                    0 <= i <= calls.len(),
                    cv == calls@.map_values(|c: MockToolCall| (c.name@, c.arguments@)),
                    contents_view(content@) == mock_call_blocks(cv.take(i as int)),
                    events_view(events@) == seq![StreamEventV::Start] + mock_call_events(cv.take(i as int)),
                decreases calls.len() - i,
            {
                let mut id = String::new();
                push_str(&mut id, "mock-tool-");
                push_decimal(&mut id, i as u64);
                let ghost eb = events_view(events@);
                let ghost cb = contents_view(content@);
                events.push(StreamEvent::ToolCallStart { content_index: i, id: copy_string(&id), name: copy_string(&calls[i].name) });
                events.push(StreamEvent::ToolCallEnd { content_index: i });
                content.push(Content::ToolCall { id, name: copy_string(&calls[i].name), arguments: copy_string(&calls[i].arguments) });
                proof {
                    assert(cv[i as int] == (calls@[i as int].name@, calls@[i as int].arguments@));
                    assert(cv.take(i + 1).drop_last() =~= cv.take(i as int));
                    assert(contents_view(content@) =~= cb.push(
                        ContentV::ToolCall { id: mock_call_id(i as nat), name: cv[i as int].0, arguments: cv[i as int].1 },
                    ));
                    assert(contents_view(content@) =~= mock_call_blocks(cv.take(i + 1)));
                    assert(events_view(events@) =~= eb + seq![
                        StreamEventV::ToolCallStart { content_index: i, id: mock_call_id(i as nat), name: cv[i as int].0 },
                        StreamEventV::ToolCallEnd { content_index: i },
                    ]);
                }
                i = i + 1;
            }
            assert(cv.take(calls.len() as int) =~= cv);
            Message::Assistant {
                content,
                stop_reason: StopReason::ToolUse,
                model: to_owned_string("mock"),
                provider: to_owned_string("mock"),
                usage: Usage::default(),
                timestamp,
                error_message: None,
            }
        },
    };
    let ghost eb = events_view(events@);
    events.push(StreamEvent::Done { message: msg.clone() });
    assert(events_view(events@) =~= eb.push(StreamEventV::Done { message: msg@ }));
    (events, msg)
}

/// A one-shot queue gives each response once, in order, and then only the
/// exhausted text.
pub proof fn law_one_shot_exhausts(q: Seq<MockResponseV>, k: nat)
    ensures
        k < q.len() ==> take_next(after_requests(MockProviderV { queue: q, repeat: false }, k)).0 == q[k as int],
        k >= q.len() ==> take_next(after_requests(MockProviderV { queue: q, repeat: false }, k)).0 == exhausted_response(),
    decreases k,
{
    lemma_one_shot_queue(q, k);
}

proof fn lemma_one_shot_queue(q: Seq<MockResponseV>, k: nat)
    ensures
        after_requests(MockProviderV { queue: q, repeat: false }, k) == (MockProviderV {
            queue: if k <= q.len() { q.skip(k as int) } else { seq![] },
            repeat: false,
        }),
    decreases k,
{
    if k > 0 {
        lemma_one_shot_queue(q, (k - 1) as nat);
        if k <= q.len() {
            assert(q.skip((k - 1) as int).drop_first() =~= q.skip(k as int));
        } else if k - 1 == q.len() {
            assert(q.skip((k - 1) as int) =~= seq![]);
        }
    } else {
        assert(q.skip(0) =~= q);
    }
}

/// A repeating queue of `n` responses gives the `k`th request the response at
/// `k mod n`.
pub proof fn law_repeat_cycles(q: Seq<MockResponseV>, k: nat)
    requires
        q.len() > 0,
    ensures
        take_next(after_requests(MockProviderV { queue: q, repeat: true }, k)).0 == q[(k % q.len()) as int],
    decreases k,
{
    lemma_repeat_queue(q, k);
    let m = (k % q.len()) as int;
    assert((q.skip(m) + q.take(m))[0] == q[m]);
}

/// A provider built by [`MockProvider::text`] answers every request with its text.
pub proof fn law_text_always_same(t: Seq<char>, k: nat)
    ensures
        take_next(after_requests(MockProviderV { queue: seq![MockResponseV::Text(t)], repeat: true }, k)).0
            == MockResponseV::Text(t),
{
    law_repeat_cycles(seq![MockResponseV::Text(t)], k);
    assert(k % 1 == 0) by (nonlinear_arith);
}

proof fn lemma_repeat_queue(q: Seq<MockResponseV>, k: nat)
    requires
        q.len() > 0,
    ensures
        after_requests(MockProviderV { queue: q, repeat: true }, k) == (MockProviderV {
            queue: q.skip((k % q.len()) as int) + q.take((k % q.len()) as int),
            repeat: true,
        }),
    decreases k,
{
    let n = q.len() as int;
    let p = MockProviderV { queue: q, repeat: true };
    if k == 0 {
        assert(q.skip(0) + q.take(0) =~= q);
        assert((0nat % q.len()) == 0) by (nonlinear_arith)
            requires q.len() > 0;
    } else {
        lemma_repeat_queue(q, (k - 1) as nat);
        assert(after_requests(p, k) == take_next(after_requests(p, (k - 1) as nat)).1);
        let m = (k - 1) as int % n;
        assert(m == (((k - 1) as nat) % q.len()) as int);
        let cur = q.skip(m) + q.take(m);
        assert(after_requests(MockProviderV { queue: q, repeat: true }, (k - 1) as nat).queue == cur);
        assert(cur.len() == n);
        assert(cur[0] == q[m]);
        let nxt = cur.drop_first().push(cur[0]);
        assert(take_next(after_requests(p, (k - 1) as nat)).1.queue == nxt);
        if m + 1 < n {
            assert(k as int % n == m + 1) by (nonlinear_arith)
                requires m == (k - 1) as int % n, m + 1 < n, k >= 1, n > 0;
            assert(nxt =~= q.skip(m + 1) + q.take(m + 1));
            assert((k % q.len()) as int == m + 1);
        } else {
            assert(k as int % n == 0) by (nonlinear_arith)
                requires m == (k - 1) as int % n, m + 1 == n, k >= 1, n > 0;
            assert(nxt =~= q.skip(0) + q.take(0));
            assert((k % q.len()) as int == 0);
        }
    }
}

} // verus!
