//! A client's side of a connection: reading the outcome of subscribe and
//! unsubscribe requests, and, where control replies and topic data share one
//! stream, sorting the two apart.
use std::collections::VecDeque;
use vstd::prelude::*;

use crate::error::Error;
use crate::protocol::messages::{topic_frame_of, Request, Response};
use crate::protocol::types::{TopicFrame, TopicSub};
use crate::session::server::{views, ProtocolSession};
use crate::text::{clone_strings, concat2};

verus! {

/// The topics of a list of confirmations.
pub open spec fn sub_topics(s: Seq<TopicSub>) -> Seq<Seq<char>> {
    s.map_values(|x: TopicSub| x.topic@)
}

/// Why a request did not give what was asked: the exchange failed, or the
/// agent answered with a response of another kind (handed back as it came).
#[derive(Debug)]
pub enum RequestFailure {
    Failed(Error),
    Unexpected(Response),
}

/// The outcome of a subscribe request, read from the agent's response: the
/// confirmed topics, the agent's error as a configuration error ("subscribe
/// error: ..."), or any other response as unexpected.
pub fn subscribe_outcome(response: Response) -> (r: Result<Vec<TopicSub>, RequestFailure>)
    ensures
        match response {
            Response::Subscribed { topics } => r == Ok::<Vec<TopicSub>, RequestFailure>(topics),
            Response::Error(e) => r matches Err(RequestFailure::Failed(Error::Config(m))) && m@
                == "subscribe error: "@ + e@,
            _ => r == Err::<Vec<TopicSub>, RequestFailure>(RequestFailure::Unexpected(response)),
        },
{
    match response {
        Response::Subscribed { topics } => Ok(topics),
        Response::Error(e) => Err(
            RequestFailure::Failed(Error::Config(concat2("subscribe error: ", e.as_str()))),
        ),
        other => Err(RequestFailure::Unexpected(other)),
    }
}

/// The outcome of an unsubscribe request, read from the agent's response: the
/// topics it unsubscribed, the agent's error as a configuration error
/// ("unsubscribe error: ..."), or any other response as unexpected.
pub fn unsubscribe_outcome(response: Response) -> (r: Result<Vec<String>, RequestFailure>)
    ensures
        match response {
            Response::Unsubscribed { topics } => r == Ok::<Vec<String>, RequestFailure>(topics),
            Response::Error(e) => r matches Err(RequestFailure::Failed(Error::Config(m))) && m@
                == "unsubscribe error: "@ + e@,
            _ => r == Err::<Vec<String>, RequestFailure>(RequestFailure::Unexpected(response)),
        },
{
    match response {
        Response::Unsubscribed { topics } => Ok(topics),
        Response::Error(e) => Err(
            RequestFailure::Failed(Error::Config(concat2("unsubscribe error: ", e.as_str()))),
        ),
        other => Err(RequestFailure::Unexpected(other)),
    }
}

/// The request that subscribes to `topics`.
pub fn subscribe_request(topics: &Vec<String>) -> (r: Request)
    ensures
        r matches Request::Subscribe { topics: t } && t@ == topics@,
{
    Request::Subscribe { topics: clone_strings(topics) }
}

/// The request that unsubscribes from `topics`.
pub fn unsubscribe_request(topics: &Vec<String>) -> (r: Request)
    ensures
        r matches Request::Unsubscribe { topics: t } && t@ == topics@,
{
    Request::Unsubscribe { topics: clone_strings(topics) }
}

/// The state of a client whose control replies and topic data arrive on one
/// stream: the topics it takes data for, and the data that arrived while it
/// waited for a control reply, oldest first.
pub struct StreamDemux {
    subscriptions: ProtocolSession,
    queue: VecDeque<(String, TopicFrame)>,
}

impl StreamDemux {
    /// The topics whose data the client keeps.
    pub closed spec fn subscribed(&self) -> Set<Seq<char>> {
        self.subscriptions@
    }

    /// Topic data held back while a control reply was awaited, oldest first.
    pub closed spec fn buffered(&self) -> Seq<(String, TopicFrame)> {
        self.queue@
    }

    /// Well-formed: the subscription record is.
    pub closed spec fn wf(&self) -> bool {
        self.subscriptions.wf()
    }

    /// No subscriptions and nothing buffered.
    pub fn new() -> (s: Self)
        ensures
            s.wf(),
            s.subscribed() == Set::<Seq<char>>::empty(),
            s.buffered() == Seq::<(String, TopicFrame)>::empty(),
    {
        StreamDemux { subscriptions: ProtocolSession::new(), queue: VecDeque::new() }
    }

    /// Whether data for `topic` is kept.
    pub fn is_subscribed(&self, topic: &str) -> (r: bool)
        ensures
            r == self.subscribed().contains(topic@),
    {
        self.subscriptions.is_subscribed(topic)
    }

    /// A frame read while a control reply is awaited: topic data for a
    /// subscribed topic is buffered, other topic data is dropped, and any
    /// other response is the reply.
    pub fn on_control_frame(&mut self, response: Response) -> (r: Option<Response>)
        requires
            old(self).wf(),
        ensures
            final(self).wf(),
            final(self).subscribed() == old(self).subscribed(),
            match response {
                Response::TopicData { topic, msg_type, stamp, data } => r is None && (if old(self).subscribed().contains(topic@) {
                    final(self).buffered() == old(self).buffered().push(
                        (topic, TopicFrame { stamp, data }),
                    )
                } else {
                    final(self).buffered() == old(self).buffered()
                }),
                _ => r == Some(response) && final(self).buffered() == old(self).buffered(),
            },
    {
        match topic_frame_of(response) {
            Ok((topic, frame)) => {
                if self.subscriptions.is_subscribed(topic.as_str()) {
                    self.queue.push_back((topic, frame));
                }
                None
            },
            Err(other) => Some(other),
        }
    }

    /// A frame read while topic data is awaited: topic data for a subscribed
    /// topic is delivered; anything else is dropped.
    pub fn on_data_frame(&self, response: Response) -> (r: Option<(String, TopicFrame)>)
        ensures
            match response {
                Response::TopicData { topic, msg_type, stamp, data } => if self.subscribed().contains(
                    topic@,
                ) {
                    r == Some((topic, TopicFrame { stamp, data }))
                } else {
                    r is None
                },
                _ => r is None,
            },
    {
        match topic_frame_of(response) {
            Ok((topic, frame)) => {
                if self.subscriptions.is_subscribed(topic.as_str()) {
                    Some((topic, frame))
                } else {
                    None
                }
            },
            Err(_) => None,
        }
    }

    /// The oldest buffered topic data, if any, taken off the buffer.
    pub fn next_buffered(&mut self) -> (r: Option<(String, TopicFrame)>)
        requires
            old(self).wf(),
        ensures
            final(self).wf(),
            final(self).subscribed() == old(self).subscribed(),
            old(self).buffered().len() == 0 ==> r is None && final(self).buffered() == old(self).buffered(),
            old(self).buffered().len() > 0 ==> r == Some(old(self).buffered()[0]) && final(self).buffered() == old(self).buffered().drop_first(),
    {
        self.queue.pop_front()
    }

    /// Before a subscribe request is sent: data for the requested topics is
    /// kept from now on, so that data arriving ahead of the confirmation is
    /// not lost.
    pub fn begin_subscribe(&mut self, topics: &Vec<String>)
        requires
            old(self).wf(),
        ensures
            final(self).wf(),
            final(self).subscribed() == old(self).subscribed().union(views(topics@).to_set()),
            final(self).buffered() == old(self).buffered(),
    {
        self.subscriptions.subscribe(clone_strings(topics));
    }

    /// After a subscribe request: the requested topics are dropped from the
    /// subscriptions again and, on success, the confirmed topics are added;
    /// the outcome is that of `subscribe_outcome`, or the exchange's error.
    pub fn finish_subscribe(
        &mut self,
        topics: &Vec<String>,
        outcome: Result<Response, Error>,
    ) -> (r: Result<Vec<TopicSub>, RequestFailure>)
        requires
            old(self).wf(),
        ensures
            final(self).wf(),
            final(self).buffered() == old(self).buffered(),
            match outcome {
                Ok(Response::Subscribed { topics: confirmed }) => r == Ok::<
                    Vec<TopicSub>,
                    RequestFailure,
                >(confirmed) && final(self).subscribed() == old(self).subscribed().difference(
                    views(topics@).to_set(),
                ).union(sub_topics(confirmed@).to_set()),
                Ok(Response::Error(e)) => r matches Err(RequestFailure::Failed(Error::Config(m)))
                    && m@ == "subscribe error: "@ + e@ && final(self).subscribed() == old(self).subscribed().difference(views(topics@).to_set()),
                Ok(other) => r == Err::<Vec<TopicSub>, RequestFailure>(
                    RequestFailure::Unexpected(other),
                ) && final(self).subscribed() == old(self).subscribed().difference(
                    views(topics@).to_set(),
                ),
                Err(e) => r == Err::<Vec<TopicSub>, RequestFailure>(RequestFailure::Failed(e))
                    && final(self).subscribed() == old(self).subscribed().difference(
                    views(topics@).to_set(),
                ),
            },
    {
        self.subscriptions.unsubscribe(topics.as_slice());
        match outcome {
            Ok(response) => {
                let r = subscribe_outcome(response);
                match &r {
                    Ok(confirmed) => {
                        let mut names: Vec<String> = Vec::new();
                        let mut i: usize = 0;
                        while i < confirmed.len()
                            invariant
                                i <= confirmed@.len(),
                                views(names@) == sub_topics(confirmed@.take(i as int)),
                            decreases confirmed@.len() - i,
                        {
                            let ghost before = names@;
                            names.push(confirmed[i].topic.clone());
                            proof {
                                assert(views(names@) =~= views(before).push(
                                    confirmed@[i as int].topic@,
                                ));
                                assert(sub_topics(confirmed@.take(i + 1)) =~= sub_topics(
                                    confirmed@.take(i as int),
                                ).push(confirmed@[i as int].topic@));
                            }
                            i = i + 1;
                        }
                        assert(confirmed@.take(confirmed@.len() as int) =~= confirmed@);
                        self.subscriptions.subscribe(names);
                    },
                    Err(_) => {},
                }
                r
            },
            Err(e) => Err(RequestFailure::Failed(e)),
        }
    }

    /// After an unsubscribe request: on success the topics the agent reports
    /// are dropped from the subscriptions; the outcome is that of
    /// `unsubscribe_outcome`.
    pub fn finish_unsubscribe(&mut self, response: Response) -> (r: Result<Vec<String>, RequestFailure>)
        requires
            old(self).wf(),
        ensures
            final(self).wf(),
            final(self).buffered() == old(self).buffered(),
            match response {
                Response::Unsubscribed { topics } => r == Ok::<Vec<String>, RequestFailure>(topics)
                    && final(self).subscribed() == old(self).subscribed().difference(
                    views(topics@).to_set(),
                ),
                Response::Error(e) => r matches Err(RequestFailure::Failed(Error::Config(m)))
                    && m@ == "unsubscribe error: "@ + e@ && final(self).subscribed() == old(self).subscribed(),
                _ => r == Err::<Vec<String>, RequestFailure>(RequestFailure::Unexpected(response))
                    && final(self).subscribed() == old(self).subscribed(),
            },
    {
        let r = unsubscribe_outcome(response);
        match &r {
            Ok(topics) => {
                self.subscriptions.unsubscribe(topics.as_slice());
            },
            Err(_) => {},
        }
        r
    }
}

/// Data that arrives between a subscribe request and its confirmation is
/// not lost: once `begin_subscribe(topics)` ran, the client keeps data for
/// each requested topic, whatever it kept before.
pub proof fn lemma_pending_subscription_keeps_data(
    subscribed: Set<Seq<char>>,
    topics: Seq<Seq<char>>,
    t: Seq<char>,
)
    requires
        topics.contains(t),
    ensures
        subscribed.union(topics.to_set()).contains(t),
{
}

} // verus!
