//! The per-tick decisions of the dispatcher: where a drained message goes,
//! what a handler's outcome sends, and which subscriptions stay alive.

use vstd::prelude::*;

use crate::error_codes::{INTERNAL_ERROR, METHOD_NOT_FOUND};
use crate::json::Json;
use crate::protocol::{BrpError, BrpResult};
use crate::registry::{RemoteMethod, RemoteMethods};

verus! {

/// The text of the method-not-found error for `method`.
pub open spec fn not_found_text(method: Seq<char>) -> Seq<char> {
    "Method `"@ + method + "` not found"@
}

/// The text of the internal error for a handler that failed with `fault`.
pub open spec fn fault_text(fault: Seq<char>) -> Seq<char> {
    "Failed to run method handler: "@ + fault
}

/// The error for a call of the unregistered method `method`.
pub fn method_not_found(method: &str) -> (r: BrpError)
    ensures
        r.code == METHOD_NOT_FOUND,
        r.message@ == not_found_text(method@),
        r.data is None,
{
    let message = String::from_str("Method `").concat(method).concat("` not found");
    BrpError { code: METHOD_NOT_FOUND, message, data: None }
}

/// The error for a handler that could not be run; `fault` says why.
pub fn handler_fault(fault: &str) -> (r: BrpError)
    ensures
        r.code == INTERNAL_ERROR,
        r.message@ == fault_text(fault@),
        r.data is None,
{
    let message = String::from_str("Failed to run method handler: ").concat(fault);
    BrpError { code: INTERNAL_ERROR, message, data: None }
}

/// Where a drained message goes.
#[derive(Debug, PartialEq)]
pub enum Route<N, S> {
    /// Answer at once with this result.
    Reply(BrpResult),
    /// Run this normal handler now.
    Run(N),
    /// Subscribe this streaming handler; it first runs in this tick's stream pass.
    Subscribe(S),
}

/// `r` is `e`, the method-not-found error for `method`.
pub open spec fn is_not_found(r: BrpResult, method: Seq<char>) -> bool {
    &&& r is Err
    &&& r->Err_0.code == METHOD_NOT_FOUND
    &&& r->Err_0.message@ == not_found_text(method)
    &&& r->Err_0.data is None
}

/// Looks up the method of a drained message.
pub fn route<N: Copy, S: Copy>(methods: &RemoteMethods<N, S>, method: &str) -> (r: Route<N, S>)
    requires
        methods.wf(),
    ensures
        !methods@.contains_key(method@) ==> r is Reply && is_not_found(r->Reply_0, method@),
        methods@.contains_key(method@) ==> match methods@[method@] {
            RemoteMethod::Normal(n) => r == Route::<N, S>::Run(n),
            RemoteMethod::Stream(s) => r == Route::<N, S>::Subscribe(s),
        },
{
    match methods.get(method) {
        None => Route::Reply(Err(method_not_found(method))),
        Some(RemoteMethod::Normal(n)) => Route::Run(*n),
        Some(RemoteMethod::Stream(s)) => Route::Subscribe(*s),
    }
}

/// The result of a normal call whose handler ran to `run`: the handler's own
/// result, success or error, unchanged; or, where the handler could not be
/// run, an internal error.
pub fn normal_reply(run: Result<BrpResult, String>) -> (r: BrpResult)
    ensures
        match run {
            Ok(result) => r == result,
            Err(fault) => r is Err && r->Err_0.code == INTERNAL_ERROR && r->Err_0.message@
                == fault_text(fault@) && r->Err_0.data is None,
        },
{
    match run {
        Ok(result) => result,
        Err(fault) => Err(handler_fault(fault.as_str())),
    }
}

/// One invocation of a streaming handler: it could not be run (`Err`), had
/// nothing yet (`Ok(None)`), or produced a result.
pub type StreamRun = Result<Option<BrpResult>, String>;

/// Whether the invocation sends a frame.
pub open spec fn yields(run: StreamRun) -> bool {
    run is Err || run->Ok_0 is Some
}

/// Whether the invocation ends the subscription whatever becomes of its frame.
pub open spec fn ends(run: StreamRun) -> bool {
    run is Err || (run->Ok_0 is Some && run->Ok_0->0 is Err)
}

/// Whether a subscription stays alive after `run`, when its frame, if any,
/// was `delivered`.
pub open spec fn survives(run: StreamRun, delivered: bool) -> bool {
    !ends(run) && (!yields(run) || delivered)
}

/// What one invocation of a streaming handler asks of the dispatcher.
#[derive(Debug, PartialEq)]
pub struct StreamStep {
    /// The frame to send, if any.
    pub frame: Option<BrpResult>,
    /// The subscription ends whatever becomes of the frame.
    pub terminal: bool,
}

impl StreamStep {
    /// Whether the subscription stays alive, given whether its frame reached
    /// the client (ignored where there was no frame).
    pub fn keeps_alive(&self, delivered: bool) -> (r: bool)
        ensures
            r == (!self.terminal && (self.frame is None || delivered)),
    {
        !self.terminal && (self.frame.is_none() || delivered)
    }
}

/// What the dispatcher does with one invocation of a streaming handler.
pub fn stream_step(run: StreamRun) -> (r: StreamStep)
    ensures
        r.frame is Some == yields(run),
        r.terminal == ends(run),
        run is Ok ==> r.frame == run->Ok_0,
        run is Err ==> (r.frame matches Some(Err(e)) && e.code == INTERNAL_ERROR && e.message@
            == fault_text(run->Err_0@) && e.data is None),
        forall|delivered: bool| (!r.terminal && (r.frame is None || delivered)) == #[trigger] survives(run, delivered),
{
    match run {
        Err(fault) => StreamStep { frame: Some(Err(handler_fault(fault.as_str()))), terminal: true },
        Ok(None) => StreamStep { frame: None, terminal: false },
        Ok(Some(result)) => {
            let terminal = result.is_err();
            StreamStep { frame: Some(result), terminal }
        },
    }
}

/// The number of ticks on which a subscription's handler runs, when on
/// successive ticks it gives `runs` and every frame reaches the client.
pub open spec fn invocations(runs: Seq<StreamRun>) -> nat
    decreases runs.len(),
{
    if runs.len() == 0 {
        0
    } else if !survives(runs[0], true) {
        1
    } else {
        1 + invocations(runs.drop_first())
    }
}

/// The ticks on which such a subscription sends a frame, the first of `runs`
/// being tick `first`.
pub open spec fn frame_ticks(runs: Seq<StreamRun>, first: nat) -> Seq<nat>
    decreases runs.len(),
{
    if runs.len() == 0 {
        Seq::empty()
    } else {
        let here = if yields(runs[0]) {
            seq![first]
        } else {
            Seq::empty()
        };
        if !survives(runs[0], true) {
            here
        } else {
            here + frame_ticks(runs.drop_first(), first + 1)
        }
    }
}

/// A handler that has nothing on its first `k` ticks and then succeeds sends
/// exactly one frame, on tick `k + 1`, and stays subscribed.
pub proof fn lemma_quiet_ticks_then_frame(runs: Seq<StreamRun>, k: nat, first: nat)
    requires
        k < runs.len(),
        forall|j: int| 0 <= j < k ==> #[trigger] runs[j] == Ok::<Option<BrpResult>, String>(None),
        runs[k as int] matches Ok(Some(Ok(_))),
    ensures
        frame_ticks(runs.take(k + 1 as int), first) == seq![first + k],
        invocations(runs.take(k + 1 as int)) == k + 1,
        survives(runs[k as int], true),
    decreases k,
{
    let t = runs.take(k + 1 as int);
    if k == 0 {
        assert(t.drop_first() =~= Seq::<StreamRun>::empty());
        assert(t[0] == runs[0]);
        assert(frame_ticks(t.drop_first(), first + 1) == Seq::<nat>::empty());
        assert(invocations(t.drop_first()) == 0);
        assert(seq![first] + Seq::<nat>::empty() =~= seq![first]);
    } else {
        let rest = runs.drop_first();
        assert(t.drop_first() =~= rest.take(k as int));
        assert forall|j: int| 0 <= j < k - 1 implies #[trigger] rest[j] == Ok::<
            Option<BrpResult>,
            String,
        >(None) by {
            assert(rest[j] == runs[j + 1]);
        }
        assert(rest[k - 1] == runs[k as int]);
        lemma_quiet_ticks_then_frame(rest, (k - 1) as nat, first + 1);
        assert(t[0] == runs[0]);
        assert(!yields(t[0]) && survives(t[0], true));
        assert(Seq::<nat>::empty() + seq![first + k] =~= seq![first + k]);
    }
}

/// A handler whose invocation `k` (from 0) ends its subscription runs on
/// exactly `k + 1` ticks and is never invoked again; where that end is an
/// error it gives, the error is the last frame sent, on tick `k + 1`.
pub proof fn lemma_error_ends_stream(runs: Seq<StreamRun>, k: nat, first: nat)
    requires
        k < runs.len(),
        forall|j: int| 0 <= j < k ==> #[trigger] survives(runs[j], true),
        ends(runs[k as int]),
    ensures
        invocations(runs) == k + 1,
        yields(runs[k as int]),
        frame_ticks(runs, first).len() > 0,
        frame_ticks(runs, first).last() == first + k,
    decreases k,
{
    if k > 0 {
        let rest = runs.drop_first();
        assert forall|j: int| 0 <= j < k - 1 implies #[trigger] survives(rest[j], true) by {
            assert(rest[j] == runs[j + 1]);
            assert(survives(runs[j + 1], true));
        }
        assert(rest[k - 1] == runs[k as int]);
        assert(survives(runs[0], true));
        lemma_error_ends_stream(rest, (k - 1) as nat, first + 1);
    }
}

} // verus!
