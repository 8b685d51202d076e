//! Root acceptance for the sphere intersection.
//!
//! Solving `|o + t*d - c|^2 = r^2` for `t` yields a discriminant and, when it
//! is positive, a nearer and a farther parametric root. Which root the
//! intersection reports is a fixed policy on signs alone: a nonpositive
//! discriminant reports no hit; otherwise the nearer root is accepted when it
//! is positive, the farther root is the fallback, and when neither is
//! positive — the sphere lies entirely behind the ray origin — there is no
//! hit. The arithmetic that produces the signs stays with the caller; the
//! choice is made and proved here.

use vstd::prelude::*;

verus! {

/// Which of the two quadratic roots the intersection reports, if any.
#[derive(Clone, Copy, Debug, PartialEq, Eq, Structural)]
pub enum RootChoice {
    /// Accept the nearer root.
    Nearer,
    /// The nearer root lies behind the origin: accept the farther root.
    Farther,
    /// No intersection is reported.
    Miss,
}

/// The acceptance policy over the three signs: whether the discriminant is
/// positive and whether each root is positive.
pub open spec fn root_policy(
    discriminant_positive: bool,
    nearer_positive: bool,
    farther_positive: bool,
) -> RootChoice {
    if !discriminant_positive {
        RootChoice::Miss
    } else if nearer_positive {
        RootChoice::Nearer
    } else if farther_positive {
        RootChoice::Farther
    } else {
        RootChoice::Miss
    }
}

/// Decide which root of the intersection quadratic to accept, from the sign
/// of the discriminant and the signs of the two roots.
pub fn accept_root(
    discriminant_positive: bool,
    nearer_positive: bool,
    farther_positive: bool,
) -> (choice: RootChoice)
    ensures
        choice == root_policy(discriminant_positive, nearer_positive, farther_positive),
        choice is Nearer <==> discriminant_positive && nearer_positive,
        choice is Farther <==> discriminant_positive && !nearer_positive && farther_positive,
        choice is Miss <==> !discriminant_positive || (!nearer_positive && !farther_positive),
{
    if !discriminant_positive {
        RootChoice::Miss
    } else if nearer_positive {
        RootChoice::Nearer
    } else if farther_positive {
        RootChoice::Farther
    } else {
        RootChoice::Miss
    }
}

/// A ray whose discriminant is not positive — it misses the sphere, or at
/// best grazes it at the boundary of the sign test — yields no hit.
pub proof fn lemma_nonpositive_discriminant_misses(nearer_positive: bool, farther_positive: bool)
    ensures
        root_policy(false, nearer_positive, farther_positive) == RootChoice::Miss,
{
}

/// A crossing or tangent ray with some root in front of the origin yields
/// exactly one accepted root: the nearer one when it is positive, otherwise
/// the farther one.
pub proof fn lemma_one_root_accepted(nearer_positive: bool, farther_positive: bool)
    requires
        nearer_positive || farther_positive,
    ensures
        root_policy(true, nearer_positive, farther_positive) != RootChoice::Miss,
        root_policy(true, nearer_positive, farther_positive) == RootChoice::Nearer
            <==> nearer_positive,
        root_policy(true, nearer_positive, farther_positive) == RootChoice::Farther
            <==> !nearer_positive,
{
}

} // verus!
