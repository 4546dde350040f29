//! The registry of declared arguments as a mathematical value: a sequence of
//! declarations in the order in which they were added, and what that sequence
//! says about positions, the trail and the spellings of flags.
use crate::arg::{ArgumentDeclaration, ArgumentKind};
use crate::common::{FlagSpelling, OptionName};
use vstd::prelude::*;

verus! {

/// The declarations of a registry, oldest first.
pub type Registry = Seq<ArgumentDeclaration>;

/// Whether a declaration is an optional argument that `flag` spells.
pub open spec fn declares(decl: ArgumentDeclaration, flag: FlagSpelling) -> bool {
    decl.kind.option_name() matches Some(name) && name.spelled_by(flag)
}

/// Whether some declaration of the registry claims the spelling `flag`.
pub open spec fn flag_declared(defs: Registry, flag: FlagSpelling) -> bool {
    exists|i: int| 0 <= i < defs.len() && declares(#[trigger] defs[i], flag)
}

/// The index of the first declaration at or after `from` that `flag` spells.
pub open spec fn find_flag(defs: Registry, flag: FlagSpelling, from: int) -> Option<int>
    decreases defs.len() - from,
{
    if from < 0 || from >= defs.len() {
        None
    } else if declares(defs[from], flag) {
        Some(from)
    } else {
        find_flag(defs, flag, from + 1)
    }
}

/// Alias resolution: the kind of the optional argument that `flag` denotes.
pub open spec fn resolve(defs: Registry, flag: FlagSpelling) -> Option<ArgumentKind> {
    match find_flag(defs, flag, 0) {
        Some(i) => Some(defs[i].kind),
        None => None,
    }
}

/// The labels of the positional declarations, in declaration order.
pub open spec fn positional_labels(defs: Registry) -> Seq<Seq<char>>
    decreases defs.len(),
{
    if defs.len() == 0 {
        Seq::empty()
    } else {
        let earlier = positional_labels(defs.drop_last());
        match defs.last().kind {
            ArgumentKind::Positional(label) => earlier.push(label),
            _ => earlier,
        }
    }
}

/// What a trail declaration asks for: its label, and whether at least one
/// value is required.
pub open spec fn trail_spec(kind: ArgumentKind) -> Option<(Seq<char>, bool)> {
    match kind {
        ArgumentKind::TrailZeroOrMore(label) => Some((label, false)),
        ArgumentKind::TrailOneOrMore(label) => Some((label, true)),
        _ => None,
    }
}

/// The trail of the registry: that of its first trail declaration.
pub open spec fn trail_of(defs: Registry) -> Option<(Seq<char>, bool)>
    decreases defs.len(),
{
    if defs.len() == 0 {
        None
    } else {
        match trail_of(defs.drop_last()) {
            Some(trail) => Some(trail),
            None => trail_spec(defs.last().kind),
        }
    }
}

/// Whether `later` may not be added to a registry that holds `earlier`: two
/// options that share a spelling, two positionals of one label, or anything
/// positional behind a trail.
pub open spec fn conflicts(earlier: ArgumentDeclaration, later: ArgumentDeclaration) -> bool {
    match (earlier.kind.option_name(), later.kind.option_name()) {
        (Some(a), Some(b)) => a.shares_spelling(b),
        (None, None) => earlier.kind.is_trail() || (later.kind is Positional && earlier.kind
            == later.kind),
        _ => false,
    }
}

/// The invariant of a registry: no declaration conflicts with an earlier one.
/// So every spelling is claimed at most once, there is at most one trail, no
/// positional follows the trail, and no two positionals share a label.
pub open spec fn registry_ok(defs: Registry) -> bool {
    forall|i: int, j: int| 0 <= i < j < defs.len() ==> !conflicts(#[trigger] defs[i], #[trigger] defs[j])
}

/// Why a declaration was refused.
pub enum DefineFailure {
    /// The spelling is already claimed by an earlier declaration.
    FlagAlreadyDefined(FlagSpelling),
    /// A positional argument of this label was already declared.
    PositionalAlreadyDefined(Seq<char>),
    /// A trail was already declared.
    TrailAlreadySet,
    /// A trail was already declared, and positions come before the trail.
    PositionalAfterTrail(Seq<char>),
}

impl DefineFailure {
    /// The refusal in words.
    pub open spec fn message(self) -> Seq<char> {
        match self {
            DefineFailure::FlagAlreadyDefined(flag) => "The flag '"@ + flag.text()
                + "' is already defined"@,
            DefineFailure::PositionalAlreadyDefined(name) =>
                "A positional argument with the name '"@ + name + "' has already been added"@,
            DefineFailure::TrailAlreadySet => "A trailing argument has already been set"@,
            DefineFailure::PositionalAfterTrail(name) => "The positional argument '"@ + name
                + "' cannot be added after the trailing argument"@,
        }
    }
}

/// The first of the spellings of `name`, the short one first, that the
/// registry already holds.
pub open spec fn claimed_spelling(defs: Registry, name: OptionName) -> Option<FlagSpelling> {
    match name {
        OptionName::Long(long) => if flag_declared(defs, FlagSpelling::Long(long)) {
            Some(FlagSpelling::Long(long))
        } else {
            None
        },
        OptionName::ShortAndLong(short, long) => if flag_declared(
            defs,
            FlagSpelling::Short(short),
        ) {
            Some(FlagSpelling::Short(short))
        } else if flag_declared(defs, FlagSpelling::Long(long)) {
            Some(FlagSpelling::Long(long))
        } else {
            None
        },
    }
}

/// Why `decl` cannot be added to `defs`, or `None` where it can.
pub open spec fn refusal(defs: Registry, decl: ArgumentDeclaration) -> Option<DefineFailure> {
    match decl.kind {
        ArgumentKind::Positional(label) => if positional_labels(defs).contains(label) {
            Some(DefineFailure::PositionalAlreadyDefined(label))
        } else if trail_of(defs) is Some {
            Some(DefineFailure::PositionalAfterTrail(label))
        } else {
            None
        },
        ArgumentKind::TrailZeroOrMore(_) | ArgumentKind::TrailOneOrMore(_) => if trail_of(defs)
            is Some {
            Some(DefineFailure::TrailAlreadySet)
        } else {
            None
        },
        _ => match claimed_spelling(defs, decl.kind.option_name()->0) {
            Some(flag) => Some(DefineFailure::FlagAlreadyDefined(flag)),
            None => None,
        },
    }
}

/// The registry after an attempt to add `decl`: unchanged where it is refused.
pub open spec fn defined(defs: Registry, decl: ArgumentDeclaration) -> Registry {
    if refusal(defs, decl) is Some {
        defs
    } else {
        defs.push(decl)
    }
}

/// The registry after adding the declarations `decls[from..]` in order, up to
/// the first that is refused, and that refusal.
pub open spec fn defined_all(defs: Registry, decls: Seq<ArgumentDeclaration>, from: int) -> (
    Registry,
    Option<DefineFailure>,
)
    decreases decls.len() - from,
{
    if from < 0 || from >= decls.len() {
        (defs, None)
    } else {
        match refusal(defs, decls[from]) {
            Some(failure) => (defs, Some(failure)),
            None => defined_all(defs.push(decls[from]), decls, from + 1),
        }
    }
}

/// What `find_flag` finds is the first declaration that the flag spells.
pub proof fn lemma_find_flag(defs: Registry, flag: FlagSpelling, from: int)
    requires
        0 <= from <= defs.len(),
    ensures
        match find_flag(defs, flag, from) {
            Some(i) => from <= i < defs.len() && declares(defs[i], flag) && forall|k: int|
                from <= k < i ==> !declares(#[trigger] defs[k], flag),
            None => forall|k: int| from <= k < defs.len() ==> !declares(#[trigger] defs[k], flag),
        },
    decreases defs.len() - from,
{
    if from < defs.len() && !declares(defs[from], flag) {
        lemma_find_flag(defs, flag, from + 1);
    }
}

/// A flag resolves exactly when some declaration claims it.
pub proof fn lemma_resolve_declared(defs: Registry, flag: FlagSpelling)
    ensures
        resolve(defs, flag) is Some <==> flag_declared(defs, flag),
        resolve(defs, flag) matches Some(kind) ==> kind.option_name() matches Some(name)
            && name.spelled_by(flag),
{
    lemma_find_flag(defs, flag, 0);
}

/// A label is among the positional labels exactly when a positional
/// declaration carries it.
pub proof fn lemma_positional_labels(defs: Registry, label: Seq<char>)
    ensures
        positional_labels(defs).contains(label) <==> exists|i: int|
            0 <= i < defs.len() && (#[trigger] defs[i]).kind == ArgumentKind::Positional(label),
        positional_labels(defs).len() <= defs.len(),
    decreases defs.len(),
{
    if defs.len() > 0 {
        let earlier = defs.drop_last();
        lemma_positional_labels(earlier, label);
        let labels = positional_labels(earlier);
        if positional_labels(defs).contains(label) {
            if labels.contains(label) {
                let i = choose|i: int|
                    0 <= i < earlier.len() && (#[trigger] earlier[i]).kind
                        == ArgumentKind::Positional(label);
                assert(defs[i] == earlier[i]);
            } else {
                let k = choose|k: int|
                    0 <= k < positional_labels(defs).len() && positional_labels(defs)[k] == label;
                assert(defs.last().kind is Positional);
                assert(labels.push(label).len() == labels.len() + 1);
                assert(k == labels.len());
                assert(defs[defs.len() - 1].kind == ArgumentKind::Positional(label));
            }
        }
        if exists|i: int|
            0 <= i < defs.len() && (#[trigger] defs[i]).kind == ArgumentKind::Positional(label) {
            let i = choose|i: int|
                0 <= i < defs.len() && (#[trigger] defs[i]).kind == ArgumentKind::Positional(
                    label,
                );
            if i < earlier.len() {
                assert(earlier[i] == defs[i]);
                assert(labels.contains(label));
                let k = choose|k: int| 0 <= k < labels.len() && labels[k] == label;
                match defs.last().kind {
                    ArgumentKind::Positional(other) => {
                        assert(labels.push(other)[k] == label);
                    },
                    _ => {},
                }
            } else {
                assert(positional_labels(defs) == labels.push(label));
                assert(labels.push(label)[labels.len() as int] == label);
            }
        }
    }
}

/// The registry has a trail exactly when it holds a trail declaration.
pub proof fn lemma_trail_of(defs: Registry)
    ensures
        trail_of(defs) is Some <==> exists|i: int|
            0 <= i < defs.len() && (#[trigger] defs[i]).kind.is_trail(),
    decreases defs.len(),
{
    if defs.len() > 0 {
        let earlier = defs.drop_last();
        lemma_trail_of(earlier);
        if trail_of(defs) is Some {
            if trail_of(earlier) is Some {
                let i = choose|i: int| 0 <= i < earlier.len() && (#[trigger] earlier[i]).kind.is_trail();
                assert(defs[i] == earlier[i]);
            } else {
                assert(defs[defs.len() - 1].kind.is_trail());
            }
        }
        if exists|i: int| 0 <= i < defs.len() && (#[trigger] defs[i]).kind.is_trail() {
            let i = choose|i: int| 0 <= i < defs.len() && (#[trigger] defs[i]).kind.is_trail();
            if i < earlier.len() {
                assert(earlier[i] == defs[i]);
            }
        }
    }
}

/// A declaration is refused exactly when it conflicts with one that the
/// registry holds.
pub proof fn lemma_refusal_is_conflict(defs: Registry, decl: ArgumentDeclaration)
    ensures
        refusal(defs, decl) is Some <==> exists|i: int|
            0 <= i < defs.len() && conflicts(#[trigger] defs[i], decl),
{
    lemma_trail_of(defs);
    match decl.kind {
        ArgumentKind::Positional(label) => {
            lemma_positional_labels(defs, label);
            if refusal(defs, decl) is Some {
                if positional_labels(defs).contains(label) {
                    let i = choose|i: int|
                        0 <= i < defs.len() && (#[trigger] defs[i]).kind
                            == ArgumentKind::Positional(label);
                    assert(conflicts(defs[i], decl));
                } else {
                    let i = choose|i: int|
                        0 <= i < defs.len() && (#[trigger] defs[i]).kind.is_trail();
                    assert(conflicts(defs[i], decl));
                }
            }
            if exists|i: int| 0 <= i < defs.len() && conflicts(#[trigger] defs[i], decl) {
                let i = choose|i: int| 0 <= i < defs.len() && conflicts(#[trigger] defs[i], decl);
                if defs[i].kind.is_trail() {
                } else {
                    assert(defs[i].kind == ArgumentKind::Positional(label));
                }
            }
        },
        ArgumentKind::TrailZeroOrMore(_) | ArgumentKind::TrailOneOrMore(_) => {
            if refusal(defs, decl) is Some {
                let i = choose|i: int| 0 <= i < defs.len() && (#[trigger] defs[i]).kind.is_trail();
                assert(conflicts(defs[i], decl));
            }
            if exists|i: int| 0 <= i < defs.len() && conflicts(#[trigger] defs[i], decl) {
                let i = choose|i: int| 0 <= i < defs.len() && conflicts(#[trigger] defs[i], decl);
                assert(defs[i].kind.is_trail());
            }
        },
        _ => {
            let name = decl.kind.option_name()->0;
            if refusal(defs, decl) is Some {
                let flag = claimed_spelling(defs, name)->0;
                assert(flag_declared(defs, flag));
                let i = choose|i: int| 0 <= i < defs.len() && declares(#[trigger] defs[i], flag);
                assert(defs[i].kind.option_name()->0.spelled_by(flag) && name.spelled_by(flag));
                assert(conflicts(defs[i], decl));
            }
            if exists|i: int| 0 <= i < defs.len() && conflicts(#[trigger] defs[i], decl) {
                let i = choose|i: int| 0 <= i < defs.len() && conflicts(#[trigger] defs[i], decl);
                let other = defs[i].kind.option_name()->0;
                let flag = choose|flag: FlagSpelling|
                    #[trigger] other.spelled_by(flag) && name.spelled_by(flag);
                assert(declares(defs[i], flag));
                assert(flag_declared(defs, flag));
            }
        },
    }
}

/// Adding a declaration that is not refused keeps the invariant.
pub proof fn lemma_define_keeps_ok(defs: Registry, decl: ArgumentDeclaration)
    requires
        registry_ok(defs),
    ensures
        registry_ok(defined(defs, decl)),
{
    lemma_refusal_is_conflict(defs, decl);
    if refusal(defs, decl) is None {
        let next = defs.push(decl);
        assert forall|i: int, j: int| 0 <= i < j < next.len() implies !conflicts(
            #[trigger] next[i],
            #[trigger] next[j],
        ) by {
            assert(next[i] == defs[i]);
            if j < defs.len() {
                assert(next[j] == defs[j]);
            }
        }
    }
}

} // verus!
