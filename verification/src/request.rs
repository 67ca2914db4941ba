//! One call of an API, as the steps the library takes between the outside
//! work: the request is built and handed out to be sent, the body is asked
//! for, and the body is prepared for deserialization.

use vstd::prelude::*;
use crate::api_caller::ClientConfig;
use crate::error::{ApiErr, ApiResult};
use crate::http::{BodyFormat, HeaderMap, RequestSpec};
use crate::payload::{added_headers, Payload};
use crate::url::{option_view, path_or_empty, request_url, spec_join_url};

verus! {

/// Where a request stands.
#[derive(Clone, Copy, Debug, PartialEq, Eq, Structural)]
pub enum Stage {
    /// Not polled yet: it still holds its payload.
    Ready,
    /// Handed out to be sent; waits for the response.
    Sending,
    /// The response came; waits for its body.
    Reading,
    /// Finished: nothing more is accepted.
    Done,
}

/// The order of the stages.
pub open spec fn stage_rank(s: Stage) -> int {
    match s {
        Stage::Ready => 0,
        Stage::Sending => 1,
        Stage::Reading => 2,
        Stage::Done => 3,
    }
}

/// What a call gives when it succeeds.
#[derive(Clone, Copy, Debug, PartialEq, Eq, Structural)]
pub enum Output {
    /// The body, read as text and deserialized.
    Text,
    /// The body as a stream of bytes.
    Stream,
}

/// What the outside world reports to a request.
pub enum Event {
    /// The request is polled for the first time.
    Poll,
    /// The outcome of sending the request.
    Sent(Result<(), reqwest::Error>),
    /// The outcome of reading the response's body as text.
    Body(Result<String, reqwest::Error>),
}

/// What a request asks the outside world to do next.
pub enum Action<P> {
    /// Send this request, with the payload attached as it says.
    Send(RequestSpec, P),
    /// Read the body of the response as text.
    ReadBody,
    /// Deserialize this text into the output; that ends the call.
    Deserialize(String),
    /// The call failed with this error.
    Fail(ApiErr),
    /// Hand the body of the response out as a stream of bytes; that ends
    /// the call.
    Stream,
}

/// A request to an API, made from a caller and a payload.
pub struct Request<P> {
    /// The client it is sent with.
    pub client: ClientConfig,
    /// The base URL of the API; emptied when the request starts.
    pub base_url: String,
    /// The payload; taken when the request starts.
    pub payload: Option<P>,
    /// What the call gives.
    pub output: Output,
    /// Where the request stands.
    pub stage: Stage,
}

impl<P: Payload> Request<P> {
    /// The first poll of a streaming request. It reads the payload's path
    /// once and joins it onto the base URL; when no URL comes of it, it
    /// gives `None` and leaves the request as it was (a stream has no error
    /// to give for it, and the call cannot go on). Otherwise it takes the
    /// payload, empties the base URL and hands out the request to send, with
    /// the method, headers and body format that the payload's methods give.
    pub fn poll_stream(&mut self) -> (a: Option<Action<P>>)
        requires
            old(self).ready(),
            old(self).output == Output::Stream,
        ensures
            final(self).client == old(self).client,
            final(self).output == old(self).output,
            exists|path: Option<String>| #[trigger] call_ensures(P::path, (&old(self).payload->0,), path)
                && match spec_join_url(old(self).base_url@, path_or_empty(option_view(path))) {
                Err(_) => a is None && *final(self) == *old(self),
                Ok(u) => {
                    let payload = old(self).payload->0;
                    &&& final(self).stage == Stage::Sending
                    &&& final(self).payload is None
                    &&& final(self).base_url@ == Seq::<char>::empty()
                    &&& a matches Some(Action::Send(req, p))
                    &&& p == payload
                    &&& req.url@ == u
                    &&& call_ensures(P::method, (), req.method)
                    &&& exists|h: Option<HeaderMap>| #[trigger] call_ensures(P::headers, (&payload,), h)
                        && req.headers@ == added_headers(Map::empty(), h)
                    &&& exists|f: Option<BodyFormat>| #[trigger] call_ensures(P::body_format, (), f)
                        && req.body == f
                },
            },
    {
        let path = match &self.payload {
            Some(p) => p.path(),
            None => None,
        };
        let ghost given = path;
        assert(call_ensures(P::path, (&old(self).payload->0,), given));
        match request_url(self.base_url.as_str(), path) {
            Err(_) => None,
            Ok(url) => {
                let payload = self.payload.take().unwrap();
                self.base_url = String::new();
                let req = payload.req_option(RequestSpec::new(P::method(), url));
                self.stage = Stage::Sending;
                Some(Action::Send(req, payload))
            },
        }
    }

    /// A new request whose body is deserialized, not started.
    pub fn new(payload: P, base_url: String, client: ClientConfig) -> (r: Request<P>)
        ensures
            r.payload == Some(payload),
            r.base_url == base_url,
            r.client == client,
            r.output == Output::Text,
            r.stage == Stage::Ready,
    {
        Request { client, base_url, payload: Some(payload), output: Output::Text, stage: Stage::Ready }
    }

    /// A new request whose body is handed out as a stream, not started.
    pub fn new_stream(payload: P, base_url: String, client: ClientConfig) -> (r: Request<P>)
        ensures
            r.payload == Some(payload),
            r.base_url == base_url,
            r.client == client,
            r.output == Output::Stream,
            r.stage == Stage::Ready,
    {
        Request { client, base_url, payload: Some(payload), output: Output::Stream, stage: Stage::Ready }
    }

    /// Whether the first poll can be taken: the request is ready and holds
    /// a payload whose body format is given (a payload without one is not
    /// supported).
    pub open spec fn ready(&self) -> bool {
        &&& self.stage == Stage::Ready
        &&& self.payload is Some
        &&& forall|f: Option<BodyFormat>| #[trigger] call_ensures(P::body_format, (), f) ==> f is Some
    }

    /// Whether the request takes `event` where it stands: a first poll
    /// of a request whose body is read as text while it is ready (a
    /// streaming request starts with `poll_stream`), the outcome of sending
    /// while it sends, the body while it reads. A finished request takes
    /// nothing.
    pub open spec fn accepts(&self, event: &Event) -> bool {
        match event {
            Event::Poll => self.ready() && self.output == Output::Text,
            Event::Sent(_) => self.stage == Stage::Sending,
            Event::Body(_) => self.stage == Stage::Reading,
        }
    }

    /// Takes one event and says what to do next.
    ///
    /// The first poll takes the payload and empties the base URL; it joins
    /// the path that the payload's `path()` gives (empty when none) onto the
    /// base URL and hands out a request with the method, headers and body
    /// format that the payload's methods give, or, when no URL comes of
    /// it, fails with `ApiErr::Other`. A failed send or read fails with
    /// `ApiErr::Reqwest`. A streaming request hands the response's body out
    /// once it is sent; otherwise the body is read and goes through the
    /// payload's `before_deserialize`: what it gives goes to the
    /// deserializer, and the error it gives ends the call.
    pub fn step(&mut self, event: Event) -> (a: Action<P>)
        requires
            old(self).accepts(&event),
        ensures
            stage_rank(final(self).stage) > stage_rank(old(self).stage),
            (final(self).stage == Stage::Done) <==> (a is Fail || a is Deserialize || a is Stream),
            final(self).client == old(self).client,
            final(self).output == old(self).output,
            old(self).stage == Stage::Ready ==> final(self).payload is None,
            old(self).stage != Stage::Ready ==> final(self).payload == old(self).payload,
            old(self).stage != Stage::Ready ==> final(self).base_url == old(self).base_url,
            match event {
                Event::Poll => {
                    let payload = old(self).payload->0;
                    &&& final(self).base_url@ == Seq::<char>::empty()
                    &&& exists|path: Option<String>| #[trigger] call_ensures(P::path, (&payload,), path)
                        && match spec_join_url(old(self).base_url@, path_or_empty(option_view(path))) {
                        Ok(u) => {
                            &&& final(self).stage == Stage::Sending
                            &&& a matches Action::Send(req, p)
                            &&& p == payload
                            &&& req.url@ == u
                            &&& call_ensures(P::method, (), req.method)
                            &&& exists|h: Option<HeaderMap>| #[trigger] call_ensures(P::headers, (&payload,), h)
                                && req.headers@ == added_headers(Map::empty(), h)
                            &&& exists|f: Option<BodyFormat>| #[trigger] call_ensures(P::body_format, (), f)
                                && req.body == f
                        },
                        Err(e) => {
                            &&& final(self).stage == Stage::Done
                            &&& a matches Action::Fail(ApiErr::Other(m))
                            &&& m@ == e
                        },
                    }
                },
                Event::Sent(Ok(())) => match old(self).output {
                    Output::Text => final(self).stage == Stage::Reading && a is ReadBody,
                    Output::Stream => final(self).stage == Stage::Done && a is Stream,
                },
                Event::Sent(Err(e)) => a matches Action::Fail(ApiErr::Reqwest(x)) && x == e,
                Event::Body(Err(e)) => a matches Action::Fail(ApiErr::Reqwest(x)) && x == e,
                Event::Body(Ok(body)) => exists|x: ApiResult<String>| #[trigger] call_ensures(P::before_deserialize, (body,), x)
                    && match x {
                    Ok(b) => a matches Action::Deserialize(t) && t == b,
                    Err(e) => a matches Action::Fail(y) && y == e,
                },
            },
    {
        match event {
            Event::Poll => {
                let payload = self.payload.take().unwrap();
                let mut base_url = String::new();
                std::mem::swap(&mut base_url, &mut self.base_url);
                let path = payload.path();
                let ghost given = path;
                assert(call_ensures(P::path, (&payload,), given));
                match request_url(base_url.as_str(), path) {
                    Ok(url) => {
                        let req = payload.req_option(RequestSpec::new(P::method(), url));
                        self.stage = Stage::Sending;
                        Action::Send(req, payload)
                    },
                    Err(e) => {
                        self.stage = Stage::Done;
                        Action::Fail(e)
                    },
                }
            },
            Event::Sent(Ok(())) => match self.output {
                Output::Text => {
                    self.stage = Stage::Reading;
                    Action::ReadBody
                },
                Output::Stream => {
                    self.stage = Stage::Done;
                    Action::Stream
                },
            },
            Event::Sent(Err(e)) => {
                self.stage = Stage::Done;
                Action::Fail(ApiErr::Reqwest(e))
            },
            Event::Body(Err(e)) => {
                self.stage = Stage::Done;
                Action::Fail(ApiErr::Reqwest(e))
            },
            Event::Body(Ok(body)) => {
                self.stage = Stage::Done;
                let r = P::before_deserialize(body);
                let ghost x = r;
                match r {
                    Ok(b) => Action::Deserialize(b),
                    Err(e) => Action::Fail(e),
                }
            },
        }
    }
}


/// A finished request takes no event: polling it again is not allowed.
pub proof fn law_finished_takes_nothing<P: Payload>(r: Request<P>, e: Event)
    requires
        r.stage == Stage::Done,
    ensures
        !r.accepts(&e),
{
}

/// Once a request has taken a step it never takes a first poll again, so
/// its payload is handed out at most once.
pub proof fn law_polled_once<P: Payload>(r: Request<P>)
    requires
        stage_rank(r.stage) > 0,
    ensures
        !r.accepts(&Event::Poll),
{
}

/// The stages a request passes through, each step raising the stage: such a
/// run has at most four stages, so a call takes at most three steps.
pub proof fn law_bounded_run(stages: Seq<Stage>)
    requires
        forall|i: int| 0 <= i < stages.len() - 1 ==> stage_rank(#[trigger] stages[i]) < stage_rank(stages[i + 1]),
    ensures
        stages.len() <= 4,
{
    if stages.len() > 0 {
        lemma_rank_at_least_index(stages, stages.len() - 1);
        assert(stage_rank(stages[stages.len() - 1]) <= 3);
    }
}

proof fn lemma_rank_at_least_index(stages: Seq<Stage>, i: int)
    requires
        0 <= i < stages.len(),
        forall|j: int| 0 <= j < stages.len() - 1 ==> stage_rank(#[trigger] stages[j]) < stage_rank(stages[j + 1]),
    ensures
        stage_rank(stages[i]) >= i,
    decreases i,
{
    if i > 0 {
        lemma_rank_at_least_index(stages, i - 1);
        assert(stage_rank(stages[i - 1]) < stage_rank(stages[i]));
    }
}

} // verus!
