//! A model that answers from a list.
use vstd::prelude::*;

use crate::error::{ErrorView, OpsCodexError, OpsResult};
use crate::model::provider::{ModelOutput, ModelRequest, ModelResponse};

verus! {

/// A model that gives the responses of a list in order, and remembers what it was
/// asked.
#[derive(Debug)]
pub struct FakeModelProvider {
    responses: Vec<ModelResponse>,
    requests: Vec<ModelRequest>,
}

/// The messages among the outputs, in order.
pub open spec fn messages_of(outputs: Seq<ModelOutput>) -> Seq<String>
    decreases outputs.len(),
{
    if outputs.len() == 0 {
        Seq::empty()
    } else {
        match outputs.last() {
            ModelOutput::Message { content } => messages_of(outputs.drop_last()).push(content),
            _ => messages_of(outputs.drop_last()),
        }
    }
}

/// The pieces in which a response is streamed.
pub fn message_deltas(response: &ModelResponse) -> (r: Vec<String>)
    ensures
        r@ == messages_of(response.outputs@),
{
    let mut r: Vec<String> = Vec::new();
    let mut i: usize = 0;
    let ghost all = response.outputs@;
    assert(all.take(0) =~= Seq::empty());
    while i < response.outputs.len()
        invariant
            i <= response.outputs@.len(),
            all == response.outputs@,
            r@ == messages_of(all.take(i as int)),
        decreases response.outputs@.len() - i,
    {
        assert(all.take(i + 1).drop_last() =~= all.take(i as int));
        assert(all.take(i + 1).last() == all[i as int]);
        if let ModelOutput::Message { content } = &response.outputs[i] {
            r.push(content.clone());
        }
        i += 1;
    }
    assert(all.take(i as int) =~= all);
    r
}

impl FakeModelProvider {
    /// The responses that are still to be given.
    pub closed spec fn waiting(&self) -> Seq<ModelResponse> {
        self.responses@
    }

    /// What the model was asked.
    pub closed spec fn asked(&self) -> Seq<ModelRequest> {
        self.requests@
    }

    pub fn new(responses: Vec<ModelResponse>) -> (r: Self)
        ensures
            r.waiting() == responses@,
            r.asked().len() == 0,
    {
        FakeModelProvider { responses, requests: Vec::new() }
    }

    pub fn requests(&self) -> (r: &Vec<ModelRequest>)
        ensures
            r@ == self.asked(),
    {
        &self.requests
    }

    /// Answers a request with the next response.
    pub fn complete(&mut self, request: ModelRequest, cancelled: bool) -> (r: OpsResult<
        ModelResponse,
    >)
        ensures
            final(self).asked() == (if cancelled {
                old(self).asked()
            } else {
                old(self).asked().push(request)
            }),
            match r {
                Ok(response) => !cancelled && old(self).waiting().len() > 0 && response == old(
                    self,
                ).waiting()[0] && final(self).waiting() == old(self).waiting().skip(1),
                Err(e) => final(self).waiting() == old(self).waiting() && if cancelled {
                    e@ == ErrorView::Cancelled
                } else {
                    old(self).waiting().len() == 0 && e@ == ErrorView::Model(
                        "fake response queue exhausted"@,
                    )
                },
            },
    {
        if cancelled {
            return Err(OpsCodexError::Cancelled);
        }
        self.requests.push(request);
        if self.responses.len() == 0 {
            return Err(OpsCodexError::Model("fake response queue exhausted".to_owned()));
        }
        let response = self.responses.remove(0);
        assert(self.responses@ =~= old(self).responses@.skip(1));
        Ok(response)
    }
}

} // verus!
