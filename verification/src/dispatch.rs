//! The request dispatcher: from the JSON body of a request to the arguments
//! of the call, and from what the call gave to the JSON body of the answer.
//!
//! A request passes through the phases `Decoding`, `Invoking` and
//! `Encoding` and ends in `Responded` or in `Failed`. The arguments are
//! decoded in the order of the parameters, so that the first parameter that
//! is missing or mismatched is the one reported. Nothing is tried twice.

use vstd::prelude::*;
use crate::codec::{decode, encode, valid};
use crate::laws::encode_is_valid;
use crate::endpoint::Endpoint;
use crate::error::{error_body, status_of, DispatchError, DispatchErrorModel, ErrorKind};
use crate::json::{get, lemma_object_model, lookup, members_model, JsonModel, JsonValue};
use crate::signature::{Results, ResultsModel};
use crate::types::{fields_model, TypeDescriptor, TypeModel};
use crate::value::{values_model, Segment, SegmentModel, Value, ValueModel};

verus! {

/// Where a request stands.
#[derive(Clone, Copy, Debug, PartialEq, Eq, Structural)]
pub enum Phase {
    /// The arguments are being read from the body.
    Decoding,
    /// The call is under way.
    Invoking,
    /// What the call gave is being written as JSON.
    Encoding,
    /// The answer is the result of the call.
    Responded,
    /// The answer is an error of this kind.
    Failed(ErrorKind),
}

/// What moves a request from one phase to the next.
#[derive(Clone, Copy, Debug, PartialEq, Eq, Structural)]
pub enum Step {
    /// Every argument was read.
    Decoded,
    /// The call came back, with a result or with a failure.
    Returned,
    /// The result was written.
    Encoded,
    /// The phase's work failed with an error of this kind.
    Rejected(ErrorKind),
}

/// The phase that follows `phase` on `step`. A step that does not apply to
/// the phase leaves it as it is; in particular nothing leaves `Responded` or
/// `Failed`, and only `Decoding` and `Encoding` can fail.
pub open spec fn transition(phase: Phase, step: Step) -> Phase {
    match (phase, step) {
        (Phase::Decoding, Step::Decoded) => Phase::Invoking,
        (Phase::Decoding, Step::Rejected(kind)) => Phase::Failed(kind),
        (Phase::Invoking, Step::Returned) => Phase::Encoding,
        (Phase::Encoding, Step::Encoded) => Phase::Responded,
        (Phase::Encoding, Step::Rejected(kind)) => Phase::Failed(kind),
        _ => phase,
    }
}

impl Phase {
    /// Whether the request has been answered.
    pub open spec fn is_terminal(self) -> bool {
        self is Responded || self is Failed
    }

    /// The phase that follows on `step`.
    pub fn advance(self, step: Step) -> (next: Phase)
        ensures
            next == transition(self, step),
            self.is_terminal() ==> next == self,
    {
        match (self, step) {
            (Phase::Decoding, Step::Decoded) => Phase::Invoking,
            (Phase::Decoding, Step::Rejected(kind)) => Phase::Failed(kind),
            (Phase::Invoking, Step::Returned) => Phase::Encoding,
            (Phase::Encoding, Step::Encoded) => Phase::Responded,
            (Phase::Encoding, Step::Rejected(kind)) => Phase::Failed(kind),
            _ => self,
        }
    }
}

/// What a callable hands back: what the call gave, and how the cleanup that
/// follows every call went.
#[derive(Debug, PartialEq, Eq)]
pub struct CallReport {
    /// The results of the call, or how it failed.
    pub outcome: Result<Vec<Value>, String>,
    /// Whether the cleanup after the call succeeded, or how it failed.
    pub cleanup: Result<(), String>,
}

/// The answer to a request.
#[derive(Debug, PartialEq, Eq)]
pub struct Reply {
    /// Where the request ended: `Responded` or `Failed`.
    pub phase: Phase,
    /// The body of the answer, or why there is none.
    pub result: Result<JsonValue, DispatchError>,
    /// The failure of the cleanup, where it failed. It is to be logged; the
    /// answer is that of the call itself.
    pub cleanup_failure: Option<DispatchError>,
}

/// The arguments for the parameters at or after `from`, each read from the
/// member of the body that has the parameter's name; or the error of the
/// first parameter that is missing or mismatched.
pub open spec fn arguments_of(
    params: Seq<(Seq<char>, TypeModel)>,
    body: Seq<(Seq<char>, JsonModel)>,
    from: int,
) -> Result<Seq<ValueModel>, DispatchErrorModel>
    decreases params.len() - from,
{
    if from < 0 || from >= params.len() {
        Ok(Seq::empty())
    } else {
        let name = params[from].0;
        match lookup(body, name) {
            None => Err(DispatchErrorModel::MissingParameter(name)),
            Some(x) => match encode(x, params[from].1) {
                Err(m) => Err(DispatchErrorModel::TypeMismatch(m.under(SegmentModel::Key(name)))),
                Ok(v) => match arguments_of(params, body, from + 1) {
                    Ok(rest) => Ok(seq![v] + rest),
                    Err(e) => Err(e),
                },
            },
        }
    }
}

/// The arguments are as many as the parameters, and each is a value of its
/// parameter's type.
pub open spec fn arguments_fit(values: Seq<ValueModel>, params: Seq<(Seq<char>, TypeModel)>) -> bool {
    &&& values.len() == params.len()
    &&& forall|i: int| 0 <= i < params.len() ==> valid(#[trigger] values[i], params[i].1)
}

/// The arguments that are read from a body are values of the parameters'
/// types.
pub proof fn lemma_arguments_fit(
    params: Seq<(Seq<char>, TypeModel)>,
    body: Seq<(Seq<char>, JsonModel)>,
    from: int,
)
    requires
        0 <= from <= params.len(),
    ensures
        match arguments_of(params, body, from) {
            Ok(values) => {
                &&& values.len() == params.len() - from
                &&& forall|k: int|
                    0 <= k < values.len() ==> valid(#[trigger] values[k], params[from + k].1)
            },
            Err(_) => true,
        },
    decreases params.len() - from,
{
    if from < params.len() {
        match lookup(body, params[from].0) {
            Some(x) => match encode(x, params[from].1) {
                Ok(v) => {
                    encode_is_valid(x, params[from].1);
                    lemma_arguments_fit(params, body, from + 1);
                    match arguments_of(params, body, from + 1) {
                        Ok(rest) => {
                            let values = seq![v] + rest;
                            assert forall|k: int| 0 <= k < values.len() implies valid(
                                #[trigger] values[k],
                                params[from + k].1,
                            ) by {
                                if k > 0 {
                                    assert(values[k] == rest[k - 1]);
                                }
                            }
                        },
                        Err(_) => {},
                    }
                },
                Err(_) => {},
            },
            None => {},
        }
    }
}

/// What is said of a call that gave another number of results than its
/// signature announces.
pub open spec fn arity_text() -> Seq<char> {
    "the call gave a number of results that its signature does not announce"@
}

/// The object of the named results.
pub open spec fn named_results(fields: Seq<(Seq<char>, TypeModel)>, values: Seq<ValueModel>) -> Seq<
    (Seq<char>, JsonModel),
> {
    Seq::new(fields.len(), |i: int| (fields[i].0, decode(values[i])))
}

/// The body that answers a call which gave `values`: an object with one
/// member for each named result, or the single result as it is.
pub open spec fn shaped(results: ResultsModel, values: Seq<ValueModel>) -> Result<
    JsonModel,
    DispatchErrorModel,
> {
    match results {
        ResultsModel::Named(fields) => if values.len() == fields.len() {
            Ok(JsonModel::Object(named_results(fields, values)))
        } else {
            Err(DispatchErrorModel::CallFailed(arity_text()))
        },
        ResultsModel::Anon(_) => if values.len() == 1 {
            Ok(decode(values[0]))
        } else {
            Err(DispatchErrorModel::CallFailed(arity_text()))
        },
    }
}

/// What a call gave, as mathematical values.
pub open spec fn outcome_model(outcome: Result<Vec<Value>, String>) -> Result<
    Seq<ValueModel>,
    Seq<char>,
> {
    match outcome {
        Ok(values) => Ok(values_model(values@)),
        Err(details) => Err(details@),
    }
}

/// The answer to a request whose call ended as `outcome` says.
pub open spec fn answer_of(results: ResultsModel, outcome: Result<Seq<ValueModel>, Seq<char>>) -> Result<
    JsonModel,
    DispatchErrorModel,
> {
    match outcome {
        Ok(values) => shaped(results, values),
        Err(details) => Err(DispatchErrorModel::CallFailed(details)),
    }
}

/// The failure to report of a cleanup.
pub open spec fn cleanup_failure_of(cleanup: Result<(), String>) -> Option<DispatchErrorModel> {
    match cleanup {
        Ok(_) => None,
        Err(details) => Some(DispatchErrorModel::CleanupFailed(details@)),
    }
}

/// The phase in which a request with this answer ends.
pub open spec fn final_phase(answer: Result<JsonModel, DispatchErrorModel>) -> Phase {
    match answer {
        Ok(_) => Phase::Responded,
        Err(e) => Phase::Failed(e.kind()),
    }
}

/// The mathematical value of an answer's body.
pub open spec fn result_model(result: Result<JsonValue, DispatchError>) -> Result<
    JsonModel,
    DispatchErrorModel,
> {
    match result {
        Ok(j) => Ok(j@),
        Err(e) => Err(e@),
    }
}

/// The mathematical value of a reported failure.
pub open spec fn failure_model(failure: Option<DispatchError>) -> Option<DispatchErrorModel> {
    match failure {
        Some(e) => Some(e@),
        None => None,
    }
}

/// The mathematical value of decoded arguments.
pub open spec fn arguments_model(r: Result<Vec<Value>, DispatchError>) -> Result<
    Seq<ValueModel>,
    DispatchErrorModel,
> {
    match r {
        Ok(values) => Ok(values_model(values@)),
        Err(e) => Err(e@),
    }
}

/// The HTTP status of an answer: 200 for a result, and for an error the
/// status of its kind.
pub open spec fn status_of_answer(answer: Result<JsonModel, DispatchErrorModel>) -> u16 {
    match answer {
        Ok(_) => 200,
        Err(e) => status_of(e.kind()),
    }
}

/// The body of an answer: the result, or the body that tells of the error.
pub open spec fn body_of_answer(answer: Result<JsonModel, DispatchErrorModel>) -> JsonModel {
    match answer {
        Ok(j) => j,
        Err(e) => error_body(e),
    }
}

impl Reply {
    /// The HTTP status under which the answer is sent.
    pub fn status(&self) -> (code: u16)
        ensures
            code == status_of_answer(result_model(self.result)),
    {
        match &self.result {
            Ok(_) => 200,
            Err(e) => e.status(),
        }
    }

    /// The JSON body of the answer.
    pub fn body(&self) -> (body: JsonValue)
        ensures
            body@ == body_of_answer(result_model(self.result)),
    {
        match &self.result {
            Ok(j) => j.clone(),
            Err(e) => e.to_json(),
        }
    }
}

/// The members that named results are written as, one for one.
fn results_to_json(fields: &Vec<(String, TypeDescriptor)>, values: &Vec<Value>) -> (out: Vec<
    (String, JsonValue),
>)
    requires
        values.len() == fields.len(),
    ensures
        members_model(out@) == named_results(fields_model(fields@), values_model(values@)),
{
    let mut out: Vec<(String, JsonValue)> = Vec::new();
    let mut i: usize = 0;
    while i < fields.len()
        invariant
            i <= fields.len(),
            values.len() == fields.len(),
            out.len() == i,
            forall|k: int|
                0 <= k < i ==> (#[trigger] out[k]).0@ == fields[k].0@ && out[k].1@ == decode(
                    values[k]@,
                ),
        decreases fields.len() - i,
    {
        let j = values[i].to_json();
        out.push((fields[i].0.clone(), j));
        i += 1;
    }
    assert(members_model(out@) =~= named_results(fields_model(fields@), values_model(values@)));
    out
}

impl<C> Endpoint<C> {
    /// Reads the arguments of a call from the body of a request.
    ///
    /// The arguments come in the order of the parameters, each read from the
    /// member that has the parameter's name, under the parameter's type.
    /// Where a member is missing the error is `MissingParameter` with the
    /// name; where it has another shape than the type asks for it is
    /// `TypeMismatch`, with a path that starts with the name. The first
    /// parameter that fails, in the order of the signature, is the one
    /// reported.
    pub fn decode_parameters(&self, payload: &Vec<(String, JsonValue)>) -> (r: Result<
        Vec<Value>,
        DispatchError,
    >)
        ensures
            arguments_model(r) == arguments_of(self.prototype@.params, members_model(payload@), 0),
    {
        let params = &self.prototype.params;
        let ghost pm = fields_model(params@);
        let ghost body = members_model(payload@);
        let ghost full = arguments_of(pm, body, 0);
        let mut out: Vec<Value> = Vec::new();
        let mut i: usize = 0;
        while i < params.len()
            invariant
                i <= params.len(),
                pm == fields_model(params@),
                pm == self.prototype@.params,
                body == members_model(payload@),
                full == arguments_of(pm, body, 0),
                match arguments_of(pm, body, i as int) {
                    Ok(rest) => full == Ok::<Seq<ValueModel>, DispatchErrorModel>(
                        values_model(out@) + rest,
                    ),
                    Err(e) => full == Err::<Seq<ValueModel>, DispatchErrorModel>(e),
                },
            decreases params.len() - i,
        {
            let ghost before = values_model(out@);
            let name = &params[i].0;
            match get(payload, name) {
                None => {
                    return Err(DispatchError::MissingParameter(name.clone()));
                },
                Some(x) => match Value::from_json(x, &params[i].1) {
                    Ok(v) => {
                        let ghost vm = v@;
                        out.push(v);
                        proof {
                            match arguments_of(pm, body, i + 1) {
                                Ok(rest) => {
                                    assert(values_model(out@) + rest =~= before + (seq![vm]
                                        + rest));
                                },
                                Err(_) => {},
                            }
                        }
                    },
                    Err(e) => {
                        return Err(DispatchError::TypeMismatch(e.under(Segment::Key(name.clone()))));
                    },
                },
            }
            i += 1;
        }
        proof {
            assert(values_model(out@) + Seq::<ValueModel>::empty() =~= values_model(out@));
        }
        Ok(out)
    }

    /// Writes what a call gave as the body of the answer: an object with one
    /// member for each named result, or the single result as it is. A call
    /// that gave another number of results than the signature announces has
    /// failed.
    pub fn encode_results(&self, values: &Vec<Value>) -> (r: Result<JsonValue, DispatchError>)
        ensures
            result_model(r) == shaped(self.prototype@.results, values_model(values@)),
    {
        match &self.prototype.results {
            Results::Named(fields) => {
                if values.len() == fields.len() {
                    let members = results_to_json(fields, values);
                    proof {
                        lemma_object_model(members);
                    }
                    Ok(JsonValue::Object(members))
                } else {
                    Err(
                        DispatchError::CallFailed(
                            String::from_str(
                                "the call gave a number of results that its signature does not announce",
                            ),
                        ),
                    )
                }
            },
            Results::Anon(_) => {
                if values.len() == 1 {
                    Ok(values[0].to_json())
                } else {
                    Err(
                        DispatchError::CallFailed(
                            String::from_str(
                                "the call gave a number of results that its signature does not announce",
                            ),
                        ),
                    )
                }
            },
        }
    }

    /// The answer to a request whose call came back with `report`.
    ///
    /// The answer is that of the call: its results as JSON, or `CallFailed`
    /// with what the call said. A failed cleanup is reported beside the
    /// answer and does not change it.
    pub fn respond(&self, report: CallReport) -> (reply: Reply)
        ensures
            result_model(reply.result) == answer_of(
                self.prototype@.results,
                outcome_model(report.outcome),
            ),
            failure_model(reply.cleanup_failure) == cleanup_failure_of(report.cleanup),
            reply.phase == final_phase(result_model(reply.result)),
    {
        let CallReport { outcome, cleanup } = report;
        let phase = Phase::Invoking.advance(Step::Returned);
        let cleanup_failure = match cleanup {
            Ok(_) => None,
            Err(details) => Some(DispatchError::CleanupFailed(details)),
        };
        let result = match outcome {
            Ok(values) => self.encode_results(&values),
            Err(details) => Err(DispatchError::CallFailed(details)),
        };
        let phase = match &result {
            Ok(_) => phase.advance(Step::Encoded),
            Err(e) => phase.advance(Step::Rejected(e.kind())),
        };
        Reply { phase, result, cleanup_failure }
    }
}

impl<C: Fn(Vec<Value>) -> CallReport> Endpoint<C> {
    /// Answers one request.
    ///
    /// The arguments are read from the body as [`Endpoint::decode_parameters`]
    /// says. Where that fails, the error is the answer and the function is
    /// not called. Otherwise the function is called once with the arguments,
    /// and the answer is made from what came back as [`Endpoint::respond`]
    /// says. The callable has to take every list of arguments that fits the
    /// parameters; it is handed no other.
    pub fn call(&self, payload: &Vec<(String, JsonValue)>) -> (reply: Reply)
        requires
            forall|args: Vec<Value>|
                arguments_fit(values_model(args@), self.prototype@.params)
                    ==> #[trigger] self.callable.requires((args,)),
        ensures
            reply.phase == final_phase(result_model(reply.result)),
            match arguments_of(self.prototype@.params, members_model(payload@), 0) {
                Err(e) => {
                    &&& result_model(reply.result) == Err::<JsonModel, DispatchErrorModel>(e)
                    &&& reply.cleanup_failure is None
                },
                Ok(arguments) => exists|args: Vec<Value>, report: CallReport|
                    {
                        &&& values_model(args@) == arguments
                        &&& #[trigger] self.callable.ensures((args,), report)
                        &&& result_model(reply.result) == answer_of(
                            self.prototype@.results,
                            outcome_model(report.outcome),
                        )
                        &&& failure_model(reply.cleanup_failure) == cleanup_failure_of(
                            report.cleanup,
                        )
                    },
            },
    {
        match self.decode_parameters(payload) {
            Err(e) => {
                let phase = Phase::Decoding.advance(Step::Rejected(e.kind()));
                Reply { phase, result: Err(e), cleanup_failure: None }
            },
            Ok(args) => {
                let ghost given = args;
                proof {
                    lemma_arguments_fit(self.prototype@.params, members_model(payload@), 0);
                    assert(arguments_fit(values_model(args@), self.prototype@.params));
                }
                let report = (self.callable)(args);
                let ghost back = report;
                let reply = self.respond(report);
                assert(self.callable.ensures((given,), back));
                reply
            },
        }
    }
}

} // verus!
