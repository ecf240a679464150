//! How the program gets attached to the network interface: natively where the
//! driver can, else generically.

use vstd::prelude::*;

verus! {

/// The next thing to do to get attached.
#[derive(Clone, Copy, Debug, PartialEq, Eq, Structural)]
pub enum AttachStep {
    /// Try the driver's native mode.
    TryNative,
    /// Try the generic mode; tell the user first where the native mode failed.
    TryGeneric { fallback: bool },
    /// Attached, natively or generically.
    Attached { native: bool },
    /// Nothing is left to try.
    Failed,
}

/// The first attempt: the generic mode where the user asks for it.
pub fn first_attempt(skb: bool) -> (step: AttachStep)
    ensures
        step == (if skb {
            AttachStep::TryGeneric { fallback: false }
        } else {
            AttachStep::TryNative
        }),
{
    if skb {
        AttachStep::TryGeneric { fallback: false }
    } else {
        AttachStep::TryNative
    }
}

/// The step after an attempt. A failed native attempt leads to the generic
/// mode, a failed generic one to nothing more.
pub open spec fn after_attempt(step: AttachStep, attached: bool) -> AttachStep {
    match step {
        AttachStep::TryNative => if attached {
            AttachStep::Attached { native: true }
        } else {
            AttachStep::TryGeneric { fallback: true }
        },
        AttachStep::TryGeneric { .. } => if attached {
            AttachStep::Attached { native: false }
        } else {
            AttachStep::Failed
        },
        AttachStep::Attached { .. } => step,
        AttachStep::Failed => step,
    }
}

/// Goes on after an attempt.
pub fn attempt_reply(step: AttachStep, attached: bool) -> (next: AttachStep)
    ensures
        next == after_attempt(step, attached),
{
    match step {
        AttachStep::TryNative => if attached {
            AttachStep::Attached { native: true }
        } else {
            AttachStep::TryGeneric { fallback: true }
        },
        AttachStep::TryGeneric { fallback: _ } => if attached {
            AttachStep::Attached { native: false }
        } else {
            AttachStep::Failed
        },
        AttachStep::Attached { native: _ } => step,
        AttachStep::Failed => step,
    }
}

/// The name of the mode that the program is attached in.
pub open spec fn mode_name(native: bool) -> Seq<char> {
    if native {
        "XDP (native)"@
    } else {
        "XDP (generic/SKB)"@
    }
}

/// The name of the mode that the program is attached in.
pub fn mode_text(native: bool) -> (s: String)
    ensures
        s@ == mode_name(native),
{
    if native {
        "XDP (native)".to_owned()
    } else {
        "XDP (generic/SKB)".to_owned()
    }
}

/// Two attempts always settle the matter, and a user who asks for the generic
/// mode is never attached natively.
pub proof fn law_two_attempts_settle_it(skb: bool, first: bool, second: bool)
    ensures
        ({
            let start = if skb {
                AttachStep::TryGeneric { fallback: false }
            } else {
                AttachStep::TryNative
            };
            let end = after_attempt(after_attempt(start, first), second);
            &&& end is Attached || end is Failed
            &&& end == (AttachStep::Attached { native: true }) <==> !skb && first
            &&& end is Failed <==> !first && (skb || !second)
        }),
{
}

/// What is settled stays settled. A native attempt that fails leads to a
/// generic one, of which the user is told; a generic one that fails leads to
/// none.
pub proof fn law_each_attempt_leads_on(step: AttachStep, attached: bool, fallback: bool)
    ensures
        step is Attached || step is Failed ==> after_attempt(step, attached) == step,
        after_attempt(AttachStep::TryNative, true) == (AttachStep::Attached { native: true }),
        after_attempt(AttachStep::TryNative, false) == (AttachStep::TryGeneric { fallback: true }),
        after_attempt((AttachStep::TryGeneric { fallback }), true) == (AttachStep::Attached {
            native: false,
        }),
        after_attempt((AttachStep::TryGeneric { fallback }), false) == AttachStep::Failed,
        mode_name(true) == "XDP (native)"@,
        mode_name(false) == "XDP (generic/SKB)"@,
{
}

} // verus!
