//! Why a live feed stopped.
//!
//! The distinction that matters is [`LiveFault::terminal`]: a dropped socket is worth
//! reconnecting for, a rejected API key is not. A classified failure travels as a
//! [`Failure`] through however many layers of context, and the supervisor reads the
//! classification back with [`fault_of`] and the sentence to show with [`fault_message`].

use vstd::prelude::*;

verus! {

/// Why a live feed stopped.
#[derive(Debug, Clone, Copy, PartialEq, Eq, Structural)]
pub enum LiveFault {
    /// The provider rejected the credentials.
    Auth,
    /// The credentials are fine, the plan does not include streaming.
    Plan,
    /// The plan is fine, this instrument (or this feed) is not part of the subscription.
    Entitlement,
    /// The provider does not know this symbol.
    Symbol,
    /// This provider cannot stream this asset type or timeframe.
    Unsupported,
    /// Another session is holding the seat; it clears when the user closes the other one.
    Conflict,
    /// Anything else: a dropped socket, a timeout, a malformed frame.
    Transport,
}

impl LiveFault {
    /// A terminal fault needs a human (a key, a plan, a subscription, a different symbol).
    pub open spec fn is_terminal(self) -> bool {
        !(self is Conflict || self is Transport)
    }

    /// The stable machine code the client styles and translates.
    pub open spec fn code_of(self) -> Seq<char> {
        match self {
            LiveFault::Auth => "auth"@,
            LiveFault::Plan => "plan"@,
            LiveFault::Entitlement => "entitlement"@,
            LiveFault::Symbol => "symbol"@,
            LiveFault::Unsupported => "unsupported"@,
            LiveFault::Conflict => "conflict"@,
            LiveFault::Transport => "transport"@,
        }
    }

    /// Whether retrying is pointless, so the supervisor stops and reports instead.
    pub fn terminal(self) -> (b: bool)
        ensures
            b == self.is_terminal(),
    {
        match self {
            LiveFault::Auth | LiveFault::Plan | LiveFault::Entitlement | LiveFault::Symbol
            | LiveFault::Unsupported => true,
            LiveFault::Conflict | LiveFault::Transport => false,
        }
    }

    /// Stable machine code, sent to the client so the UI can style and translate it.
    pub fn code(self) -> (c: &'static str)
        ensures
            c@ == self.code_of(),
    {
        match self {
            LiveFault::Auth => "auth",
            LiveFault::Plan => "plan",
            LiveFault::Entitlement => "entitlement",
            LiveFault::Symbol => "symbol",
            LiveFault::Unsupported => "unsupported",
            LiveFault::Conflict => "conflict",
            LiveFault::Transport => "transport",
        }
    }
}

/// Two different faults never share a code: the client tells them apart by it.
pub proof fn lemma_codes_are_distinct(a: LiveFault, b: LiveFault)
    ensures
        a != b ==> a.code_of() != b.code_of(),
{
    reveal_strlit("auth");
    reveal_strlit("plan");
    reveal_strlit("entitlement");
    reveal_strlit("symbol");
    reveal_strlit("unsupported");
    reveal_strlit("conflict");
    reveal_strlit("transport");
    if a != b && a.code_of() == b.code_of() {
        assert(a.code_of().len() == b.code_of().len());
        assert(a.code_of()[0] == b.code_of()[0]);
        assert(a.code_of()[1] == b.code_of()[1]);
    }
}

/// A classified live failure: the fault and the sentence that names the fix.
#[derive(Debug, Clone)]
pub struct LiveError {
    pub fault: LiveFault,
    pub message: String,
}

/// What a failure carries at its root: a classification someone put there, or plain words.
#[derive(Debug, Clone)]
pub enum Cause {
    Live(LiveError),
    Plain(String),
}

/// An error on its way up to the supervisor: a root cause and the context each layer added,
/// innermost first.
#[derive(Debug, Clone)]
pub struct Failure {
    pub cause: Cause,
    pub context: Vec<String>,
}

impl LiveError {
    pub fn new(fault: LiveFault, message: &str) -> (e: LiveError)
        ensures
            e.fault == fault,
            e.message@ == message@,
    {
        LiveError { fault, message: message.to_string() }
    }

    /// The classified failure, ready to travel.
    pub fn err(fault: LiveFault, message: &str) -> (f: Failure)
        ensures
            f.cause matches Cause::Live(e) && e.fault == fault && e.message@ == message@,
            f.context@.len() == 0,
    {
        Failure { cause: Cause::Live(LiveError::new(fault, message)), context: Vec::new() }
    }
}

/// `a ++ ": " ++ b`.
pub open spec fn colon_join(a: Seq<char>, b: Seq<char>) -> Seq<char> {
    a + seq![':', ' '] + b
}

/// The chain as `{:#}` renders it: the outermost context first, then each inner one, then
/// the root, separated by `": "`.
pub open spec fn chain_text(ctx: Seq<Seq<char>>, root: Seq<char>) -> Seq<char>
    decreases ctx.len(),
{
    if ctx.len() == 0 {
        root
    } else {
        colon_join(ctx.last(), chain_text(ctx.drop_last(), root))
    }
}

impl Failure {
    /// An unclassified failure with these words.
    pub fn msg(text: &str) -> (f: Failure)
        ensures
            f.cause matches Cause::Plain(t) && t@ == text@,
            f.context@.len() == 0,
    {
        Failure { cause: Cause::Plain(text.to_string()), context: Vec::new() }
    }

    /// The same failure, wrapped in one more layer of context.
    pub fn context(self, what: &str) -> (f: Failure)
        ensures
            f.cause == self.cause,
            f.context@.len() == self.context@.len() + 1,
            forall|i: int| 0 <= i < self.context@.len() ==> f.context@[i] == self.context@[i],
            f.context@.last()@ == what@,
    {
        let mut context = self.context;
        context.push(what.to_string());
        Failure { cause: self.cause, context }
    }

    /// The context texts, innermost first.
    pub open spec fn context_texts(self) -> Seq<Seq<char>> {
        self.context@.map_values(|c: String| c@)
    }

    /// What `fault_of` reads.
    pub open spec fn fault_spec(self) -> LiveFault {
        match self.cause {
            Cause::Live(e) => e.fault,
            Cause::Plain(_) => LiveFault::Transport,
        }
    }

    /// What `fault_message` shows.
    pub open spec fn message_spec(self) -> Seq<char> {
        match self.cause {
            Cause::Live(e) => e.message@,
            Cause::Plain(t) => chain_text(self.context_texts(), t@),
        }
    }
}

/// Classify a failure: the [`LiveError`] someone put at its root, or `Transport` by default.
pub fn fault_of(e: &Failure) -> (f: LiveFault)
    ensures
        f == e.fault_spec(),
{
    match &e.cause {
        Cause::Live(l) => l.fault,
        Cause::Plain(_) => LiveFault::Transport,
    }
}

/// The sentence to show for a failure: the classified message when there is one,
/// otherwise the whole chain's own words.
pub fn fault_message(e: &Failure) -> (m: String)
    ensures
        m@ == e.message_spec(),
{
    match &e.cause {
        Cause::Live(l) => l.message.clone(),
        Cause::Plain(root) => {
            let ghost ctx = e.context_texts();
            let mut out = String::new();
            let mut i: usize = e.context.len();
            proof {
                assert(ctx.take(i as int) == ctx);
                assert(out@ + chain_text(ctx, root@) == chain_text(ctx, root@));
            }
            while i > 0
                invariant
                    i <= e.context@.len(),
                    ctx == e.context_texts(),
                    out@ + chain_text(ctx.take(i as int), root@) == chain_text(ctx, root@),
                decreases i,
            {
                let ghost before = out@;
                out.append(e.context[i - 1].as_str());
                out.append(": ");
                proof {
                    reveal_strlit(": ");
                    let t = ctx.take(i as int);
                    assert(t.drop_last() == ctx.take(i - 1));
                    assert(t.last() == e.context@[i - 1]@);
                    assert(out@ == before + e.context@[i - 1]@ + seq![':', ' ']);
                    assert(before + colon_join(t.last(), chain_text(t.drop_last(), root@)) == out@
                        + chain_text(ctx.take(i - 1), root@));
                }
                i = i - 1;
            }
            out.append(root.as_str());
            proof {
                assert(ctx.take(0) == Seq::<Seq<char>>::empty());
                assert(e.context@.len() as int == ctx.len());
                assert(ctx.take(ctx.len() as int) == ctx);
            }
            out
        },
    }
}


impl Failure {
    /// This failure is the classified one with exactly this fault and sentence.
    pub open spec fn is(self, fault: LiveFault, message: Seq<char>) -> bool {
        self.cause matches Cause::Live(e) && e.fault == fault && e.message@ == message
            && self.context@.len() == 0
    }
}

/// A classified failure whose sentence is `a` followed by `b`.
pub fn fail2(fault: LiveFault, a: &str, b: &str) -> (f: Failure)
    ensures
        f.is(fault, a@ + b@),
{
    let mut m = a.to_string();
    m.append(b);
    Failure { cause: Cause::Live(LiveError { fault, message: m }), context: Vec::new() }
}

/// A classified failure whose sentence is `a`, `b`, `c` in turn.
pub fn fail3(fault: LiveFault, a: &str, b: &str, c: &str) -> (f: Failure)
    ensures
        f.is(fault, a@ + b@ + c@),
{
    let mut m = a.to_string();
    m.append(b);
    m.append(c);
    Failure { cause: Cause::Live(LiveError { fault, message: m }), context: Vec::new() }
}

/// A classified failure whose sentence is `a` to `e` in turn.
pub fn fail5(fault: LiveFault, a: &str, b: &str, c: &str, d: &str, e: &str) -> (f: Failure)
    ensures
        f.is(fault, a@ + b@ + c@ + d@ + e@),
{
    let mut m = a.to_string();
    m.append(b);
    m.append(c);
    m.append(d);
    m.append(e);
    Failure { cause: Cause::Live(LiveError { fault, message: m }), context: Vec::new() }
}

} // verus!
