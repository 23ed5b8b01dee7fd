//! The heap/unsafe safety audit: given the unsafe-usage counts a geiger
//! report lists per package, decide whether `lit-bit-core` itself uses
//! unsafe code, and word the verdict.

use crate::text::{decimal, push_decimal};
use vstd::prelude::*;

verus! {

/// Unsafe items a geiger report counts as used in one package.
pub struct PackageUnsafety {
    pub name: String,
    pub functions: u64,
    pub exprs: u64,
    pub impls: u64,
    pub traits: u64,
    pub methods: u64,
}

/// Outcome of the safety audit.
#[derive(Debug, Clone, Copy, PartialEq, Eq, Structural)]
pub enum SafetyVerdict {
    /// The package was found and uses no unsafe code.
    Clean,
    /// The package uses unsafe code: the total, then the counts per kind.
    UnsafeCode { total: u64, functions: u64, exprs: u64, impls: u64, traits: u64, methods: u64 },
    /// The report lists no package of that name.
    PackageMissing,
}

/// The name of the package the audit checks.
pub open spec fn checked_name() -> Seq<char> {
    "lit-bit-core"@
}

/// Sum of the unsafe counts of a package.
pub open spec fn unsafe_total(p: PackageUnsafety) -> int {
    p.functions + p.exprs + p.impls + p.traits + p.methods
}

/// Index of the first package of the checked name among `ps`, or `ps.len()`.
pub open spec fn first_checked(ps: Seq<PackageUnsafety>) -> int
    decreases ps.len(),
{
    if ps.len() == 0 {
        0
    } else if ps[0].name@ == checked_name() {
        0
    } else {
        1 + first_checked(ps.drop_first())
    }
}

/// The verdict the audit reaches on the packages `ps`.
pub open spec fn verdict(ps: Seq<PackageUnsafety>) -> SafetyVerdict {
    let i = first_checked(ps);
    if i >= ps.len() {
        SafetyVerdict::PackageMissing
    } else {
        let p = ps[i];
        if unsafe_total(p) == 0 {
            SafetyVerdict::Clean
        } else {
            SafetyVerdict::UnsafeCode {
                total: unsafe_total(p) as u64,
                functions: p.functions,
                exprs: p.exprs,
                impls: p.impls,
                traits: p.traits,
                methods: p.methods,
            }
        }
    }
}

/// Whether the unsafe counts of the checked package, if any, add up within `u64`.
pub open spec fn total_fits(ps: Seq<PackageUnsafety>) -> bool {
    first_checked(ps) < ps.len() ==> unsafe_total(ps[first_checked(ps)]) <= u64::MAX
}

proof fn lemma_first_checked(ps: Seq<PackageUnsafety>)
    ensures
        0 <= first_checked(ps) <= ps.len(),
        first_checked(ps) < ps.len() ==> ps[first_checked(ps)].name@ == checked_name(),
        forall|j: int| 0 <= j < first_checked(ps) ==> ps[j].name@ != checked_name(),
    decreases ps.len(),
{
    if ps.len() > 0 && ps[0].name@ != checked_name() {
        lemma_first_checked(ps.drop_first());
        assert forall|j: int| 0 <= j < first_checked(ps) implies ps[j].name@ != checked_name() by {
            if j > 0 {
                assert(ps[j] == ps.drop_first()[j - 1]);
            }
        }
    }
}

/// The audit reads the first package named `lit-bit-core` at position `i`:
/// it passes exactly when that package counts no unsafe function,
/// expression, impl, trait or method; otherwise it fails and reports each of
/// the five counts and their sum.
pub proof fn lemma_verdict_of_first_core_package(ps: Seq<PackageUnsafety>, i: int)
    requires
        0 <= i < ps.len(),
        ps[i].name@ == "lit-bit-core"@,
        forall|j: int| 0 <= j < i ==> (#[trigger] ps[j]).name@ != "lit-bit-core"@,
    ensures
        (verdict(ps) is Clean) <==> (ps[i].functions == 0 && ps[i].exprs == 0 && ps[i].impls == 0 && ps[i].traits == 0
            && ps[i].methods == 0),
        !(verdict(ps) is Clean) ==> verdict(ps) == (SafetyVerdict::UnsafeCode {
            total: (ps[i].functions + ps[i].exprs + ps[i].impls + ps[i].traits + ps[i].methods) as u64,
            functions: ps[i].functions,
            exprs: ps[i].exprs,
            impls: ps[i].impls,
            traits: ps[i].traits,
            methods: ps[i].methods,
        }),
{
    lemma_first_checked(ps);
    let f = first_checked(ps);
    if f < i {
        assert(ps[f].name@ != "lit-bit-core"@);
    }
    if f > i {
        assert(ps[i].name@ != checked_name());
    }
    assert(f == i);
}

/// The audit fails as missing exactly when no package is named `lit-bit-core`.
pub proof fn lemma_verdict_missing(ps: Seq<PackageUnsafety>)
    ensures
        (verdict(ps) is PackageMissing) <==> forall|j: int| 0 <= j < ps.len() ==> (#[trigger] ps[j]).name@ != "lit-bit-core"@,
{
    lemma_first_checked(ps);
    let f = first_checked(ps);
    if f < ps.len() {
        assert(ps[f].name@ == "lit-bit-core"@);
    }
}

/// Decides whether the checked package uses unsafe code: the first package
/// of that name counts, later ones are not looked at.
pub fn check_packages(packages: &Vec<PackageUnsafety>) -> (v: SafetyVerdict)
    requires
        total_fits(packages@),
    ensures
        v == verdict(packages@),
{
    let target = String::from_str("lit-bit-core");
    let ghost ps = packages@;
    proof {
        lemma_first_checked(ps);
    }
    let mut i: usize = 0;
    while i < packages.len()
        invariant
            ps == packages@,
            target@ == checked_name(),
            i <= ps.len(),
            i <= first_checked(ps),
            0 <= first_checked(ps) <= ps.len(),
            first_checked(ps) < ps.len() ==> ps[first_checked(ps)].name@ == checked_name(),
            forall|j: int| 0 <= j < first_checked(ps) ==> ps[j].name@ != checked_name(),
            total_fits(ps),
        decreases ps.len() - i,
    {
        let p = &packages[i];
        if p.name == target {
            let total = p.functions + p.exprs + p.impls + p.traits + p.methods;
            if total == 0 {
                return SafetyVerdict::Clean;
            }
            return SafetyVerdict::UnsafeCode {
                total,
                functions: p.functions,
                exprs: p.exprs,
                impls: p.impls,
                traits: p.traits,
                methods: p.methods,
            };
        }
        i = i + 1;
    }
    SafetyVerdict::PackageMissing
}

/// Whether the unsafe counts of the first package of the checked name, if
/// any, add up within `u64` (the condition of [`check_packages`]).
pub fn unsafe_total_fits(packages: &Vec<PackageUnsafety>) -> (r: bool)
    ensures
        r == total_fits(packages@),
{
    let target = String::from_str("lit-bit-core");
    let ghost ps = packages@;
    proof {
        lemma_first_checked(ps);
    }
    let mut i: usize = 0;
    while i < packages.len()
        invariant
            ps == packages@,
            target@ == checked_name(),
            i <= ps.len(),
            i <= first_checked(ps),
            0 <= first_checked(ps) <= ps.len(),
            first_checked(ps) < ps.len() ==> ps[first_checked(ps)].name@ == checked_name(),
            forall|j: int| 0 <= j < first_checked(ps) ==> ps[j].name@ != checked_name(),
        decreases ps.len() - i,
    {
        let p = &packages[i];
        if p.name == target {
            let total = p.functions as u128 + p.exprs as u128 + p.impls as u128 + p.traits as u128 + p.methods as u128;
            return total <= u64::MAX as u128;
        }
        i = i + 1;
    }
    true
}

/// The text the audit prints for `v`.
pub open spec fn verdict_text(v: SafetyVerdict) -> Seq<char> {
    match v {
        SafetyVerdict::Clean => "✅ lit-bit-core contains no unsafe code (used: 0)"@,
        SafetyVerdict::UnsafeCode { total, functions, exprs, impls, traits, methods } => "❌ lit-bit-core uses unsafe code! ("@
            + decimal(total as nat) + " total)\n  Functions: "@ + decimal(functions as nat) + "\n  Expressions: "@
            + decimal(exprs as nat) + "\n  Impls: "@ + decimal(impls as nat) + "\n  Traits: "@ + decimal(traits as nat)
            + "\n  Methods: "@ + decimal(methods as nat),
        SafetyVerdict::PackageMissing => "❌ lit-bit-core not found in geiger report!"@,
    }
}

impl SafetyVerdict {
    /// Whether the audit fails: unsafe code was found or the package is missing.
    pub fn is_failure(&self) -> (r: bool)
        ensures
            r == !(*self is Clean),
    {
        match self {
            SafetyVerdict::Clean => false,
            _ => true,
        }
    }

    /// The message the audit prints for this verdict.
    pub fn message(&self) -> (r: String)
        ensures
            r@ == verdict_text(*self),
    {
        match self {
            SafetyVerdict::Clean => String::from_str("✅ lit-bit-core contains no unsafe code (used: 0)"),
            SafetyVerdict::UnsafeCode { total, functions, exprs, impls, traits, methods } => {
                let mut s = String::from_str("❌ lit-bit-core uses unsafe code! (");
                push_decimal(&mut s, *total);
                s.append(" total)\n  Functions: ");
                push_decimal(&mut s, *functions);
                s.append("\n  Expressions: ");
                push_decimal(&mut s, *exprs);
                s.append("\n  Impls: ");
                push_decimal(&mut s, *impls);
                s.append("\n  Traits: ");
                push_decimal(&mut s, *traits);
                s.append("\n  Methods: ");
                push_decimal(&mut s, *methods);
                s
            },
            SafetyVerdict::PackageMissing => String::from_str("❌ lit-bit-core not found in geiger report!"),
        }
    }
}

} // verus!
