//! What the type system may ask of the codebase it serves: the class
//! hierarchy and the template parameters classes declare.
//!
//! The codebase implements [`World`]; [`NullWorld`] is a codebase that
//! declares nothing.
use vstd::prelude::*;

use crate::element::{Type, TypeV};
use crate::substitute::opt_view;

verus! {

/// How a class's type argument may vary with the class.
#[derive(Debug, Clone, Copy, PartialEq, Eq, Structural)]
pub enum Variance {
    Covariant,
    Contravariant,
    Invariant,
}

/// A template parameter as a class declares it.
#[derive(Debug)]
pub struct TemplateParameter {
    pub variance: Variance,
    pub upper_bound: Option<Type>,
}

/// The codebase's answers. Each method is deterministic: it answers as
/// its spec function says.
pub trait World {
    /// `child` extends or implements `ancestor`, directly or not.
    spec fn descends_from_spec(&self, child: Seq<char>, ancestor: Seq<char>) -> bool;

    /// The variance of the `index`-th template parameter of `class`, when
    /// the class declares one there.
    spec fn variance_at_spec(&self, class: Seq<char>, index: int) -> Option<Variance>;

    /// The type `child` passes for the `position`-th template parameter of
    /// its ancestor `ancestor`, written over `child`'s own parameters.
    spec fn inherited_argument_spec(&self, child: Seq<char>, ancestor: Seq<char>, position: int) -> Option<TypeV>;

    /// The position of the template parameter `name` among `class`'s.
    spec fn parameter_index_spec(&self, class: Seq<char>, name: Seq<char>) -> Option<int>;

    /// The upper bound the `index`-th template parameter of `class`
    /// declares, if it declares one.
    spec fn upper_bound_at_spec(&self, class: Seq<char>, index: int) -> Option<TypeV>;

    /// `class` is final: no class extends it.
    spec fn is_final_spec(&self, class: Seq<char>) -> bool;

    /// The sealed class or interface that lists `class` among its
    /// permitted children, if any.
    spec fn sealed_parent_spec(&self, class: Seq<char>) -> Option<Seq<char>>;

    /// How many template parameters `class` declares.
    spec fn arity_spec(&self, class: Seq<char>) -> nat;

    fn descends_from(&self, child: &Vec<char>, ancestor: &Vec<char>) -> (r: bool)
        ensures
            r == self.descends_from_spec(child@, ancestor@),
    ;

    fn template_parameter_at(&self, class: &Vec<char>, index: usize) -> (r: Option<TemplateParameter>)
        ensures
            match r {
                Some(p) => {
                    &&& self.variance_at_spec(class@, index as int) == Some(p.variance)
                    &&& opt_view(p.upper_bound) == self.upper_bound_at_spec(class@, index as int)
                },
                None => self.variance_at_spec(class@, index as int) is None,
            },
    ;

    fn inherited_template_argument(&self, child: &Vec<char>, ancestor: &Vec<char>, position: usize) -> (r: Option<
        Type,
    >)
        ensures
            opt_view(r) == self.inherited_argument_spec(child@, ancestor@, position as int),
    ;

    fn template_parameter_index(&self, class: &Vec<char>, name: &Vec<char>) -> (r: Option<usize>)
        ensures
            match r {
                Some(i) => self.parameter_index_spec(class@, name@) == Some(i as int),
                None => self.parameter_index_spec(class@, name@) is None,
            },
    ;

    fn is_final(&self, class: &Vec<char>) -> (r: bool)
        ensures
            r == self.is_final_spec(class@),
    ;

    fn sealed_parent_of(&self, class: &Vec<char>) -> (r: Option<Vec<char>>)
        ensures
            match r {
                Some(p) => self.sealed_parent_spec(class@) == Some(p@),
                None => self.sealed_parent_spec(class@) is None,
            },
    ;

    fn template_parameter_arity(&self, class: &Vec<char>) -> (r: usize)
        ensures
            r == self.arity_spec(class@),
    ;
}

/// A codebase that declares nothing: no class descends from another, no
/// class is final or sealed, and no class has template parameters.
#[derive(Debug, Clone, Copy)]
pub struct NullWorld;

impl World for NullWorld {
    open spec fn descends_from_spec(&self, child: Seq<char>, ancestor: Seq<char>) -> bool {
        false
    }

    open spec fn variance_at_spec(&self, class: Seq<char>, index: int) -> Option<Variance> {
        None
    }

    open spec fn inherited_argument_spec(&self, child: Seq<char>, ancestor: Seq<char>, position: int) -> Option<
        TypeV,
    > {
        None
    }

    open spec fn parameter_index_spec(&self, class: Seq<char>, name: Seq<char>) -> Option<int> {
        None
    }

    open spec fn upper_bound_at_spec(&self, class: Seq<char>, index: int) -> Option<TypeV> {
        None
    }

    open spec fn is_final_spec(&self, class: Seq<char>) -> bool {
        false
    }

    open spec fn sealed_parent_spec(&self, class: Seq<char>) -> Option<Seq<char>> {
        None
    }

    open spec fn arity_spec(&self, class: Seq<char>) -> nat {
        0
    }

    fn descends_from(&self, child: &Vec<char>, ancestor: &Vec<char>) -> (r: bool) {
        false
    }

    fn template_parameter_at(&self, class: &Vec<char>, index: usize) -> (r: Option<TemplateParameter>) {
        None
    }

    fn inherited_template_argument(&self, child: &Vec<char>, ancestor: &Vec<char>, position: usize) -> (r: Option<
        Type,
    >) {
        None
    }

    fn template_parameter_index(&self, class: &Vec<char>, name: &Vec<char>) -> (r: Option<usize>) {
        None
    }

    fn is_final(&self, class: &Vec<char>) -> (r: bool) {
        false
    }

    fn sealed_parent_of(&self, class: &Vec<char>) -> (r: Option<Vec<char>>) {
        None
    }

    fn template_parameter_arity(&self, class: &Vec<char>) -> (r: usize) {
        0
    }
}

/// The first index from `i` on at which `keys` holds `k`, or -1.
pub open spec fn first_key(keys: Seq<Seq<char>>, k: Seq<char>, i: int) -> int
    decreases keys.len() - i,
{
    if i < 0 || i >= keys.len() {
        -1
    } else if keys[i] == k {
        i
    } else {
        first_key(keys, k, i + 1)
    }
}

proof fn lemma_first_key(keys: Seq<Seq<char>>, k: Seq<char>, i: int)
    requires
        0 <= i,
    ensures
        first_key(keys, k, i) == -1 || (i <= first_key(keys, k, i) < keys.len() && keys[first_key(keys, k, i)] == k),
    decreases keys.len() - i,
{
    if i < keys.len() && keys[i] != k {
        lemma_first_key(keys, k, i + 1);
    }
}

fn find_key(keys: &Vec<Vec<char>>, k: &Vec<char>) -> (r: Option<usize>)
    ensures
        match r {
            Some(i) => first_key(keys@.map_values(|v: Vec<char>| v@), k@, 0) == i as int,
            None => first_key(keys@.map_values(|v: Vec<char>| v@), k@, 0) == -1,
        },
{
    let ghost ks = keys@.map_values(|v: Vec<char>| v@);
    let mut i: usize = 0;
    while i < keys.len()
        invariant
            ks == keys@.map_values(|v: Vec<char>| v@),
            ks.len() == keys.len(),
            i <= keys.len(),
            first_key(ks, k@, 0) == first_key(ks, k@, i as int),
        decreases keys.len() - i,
    {
        assert(ks[i as int] == keys@[i as int]@);
        if crate::element::chars_eq(&keys[i], k) {
            return Some(i);
        }
        i += 1;
    }
    None
}

/// A codebase given as tables: the ancestors of each class, the final
/// classes, the sealed parent of each sealed child, the variances of each
/// class's template parameters, and what a class passes to the parameters
/// of an ancestor. The first row for a class is the one that counts.
#[derive(Debug)]
pub struct DeclaredWorld {
    /// Every class that descends from another, with that ancestor: one
    /// row per pair, direct or not.
    pub descendants: Vec<Vec<char>>,
    pub ancestors: Vec<Vec<char>>,
    pub finals: Vec<Vec<char>>,
    /// Each sealed child, with its sealed parent at the same row.
    pub sealed_children: Vec<Vec<char>>,
    pub sealed_parents: Vec<Vec<char>>,
    /// Each generic class, with the variances of its parameters.
    pub generic_classes: Vec<Vec<char>>,
    pub variances: Vec<Vec<Variance>>,
    /// Each `class:ancestor` pair, joined with a `:`, with the types the
    /// class passes to the ancestor's parameters at the same row.
    pub inherits: Vec<Vec<char>>,
    pub inherited: Vec<Vec<Type>>,
}

pub open spec fn chars_of(v: Seq<Vec<char>>) -> Seq<Seq<char>> {
    v.map_values(|x: Vec<char>| x@)
}

/// The key of an inheritance row: the class, a `:`, the ancestor.
pub open spec fn inherit_key(child: Seq<char>, ancestor: Seq<char>) -> Seq<char> {
    child + seq![':'] + ancestor
}

impl World for DeclaredWorld {
    open spec fn descends_from_spec(&self, child: Seq<char>, ancestor: Seq<char>) -> bool {
        exists|i: int|
            0 <= i < self.descendants@.len() && i < self.ancestors@.len() && #[trigger] self.descendants@[i]@ == child
                && self.ancestors@[i]@ == ancestor
    }

    open spec fn variance_at_spec(&self, class: Seq<char>, index: int) -> Option<Variance> {
        let i = first_key(chars_of(self.generic_classes@), class, 0);
        if 0 <= i < self.variances@.len() && 0 <= index < self.variances@[i]@.len() {
            Some(self.variances@[i]@[index])
        } else {
            None
        }
    }

    open spec fn inherited_argument_spec(&self, child: Seq<char>, ancestor: Seq<char>, position: int) -> Option<TypeV> {
        let i = first_key(chars_of(self.inherits@), inherit_key(child, ancestor), 0);
        if 0 <= i < self.inherited@.len() && 0 <= position < self.inherited@[i]@.len() {
            Some(self.inherited@[i]@[position]@)
        } else {
            None
        }
    }

    open spec fn parameter_index_spec(&self, class: Seq<char>, name: Seq<char>) -> Option<int> {
        None
    }

    open spec fn upper_bound_at_spec(&self, class: Seq<char>, index: int) -> Option<TypeV> {
        None
    }

    open spec fn is_final_spec(&self, class: Seq<char>) -> bool {
        chars_of(self.finals@).contains(class)
    }

    open spec fn sealed_parent_spec(&self, class: Seq<char>) -> Option<Seq<char>> {
        let i = first_key(chars_of(self.sealed_children@), class, 0);
        if 0 <= i < self.sealed_parents@.len() {
            Some(self.sealed_parents@[i]@)
        } else {
            None
        }
    }

    open spec fn arity_spec(&self, class: Seq<char>) -> nat {
        let i = first_key(chars_of(self.generic_classes@), class, 0);
        if 0 <= i < self.variances@.len() {
            self.variances@[i]@.len()
        } else {
            0
        }
    }

    fn descends_from(&self, child: &Vec<char>, ancestor: &Vec<char>) -> (r: bool) {
        let mut i: usize = 0;
        while i < self.descendants.len()
            invariant
                i <= self.descendants.len(),
                forall|j: int|
                    0 <= j < i && j < self.ancestors@.len() ==> !(#[trigger] self.descendants@[j]@ == child@
                        && self.ancestors@[j]@ == ancestor@),
            decreases self.descendants.len() - i,
        {
            if i < self.ancestors.len() && crate::element::chars_eq(&self.descendants[i], child)
                && crate::element::chars_eq(&self.ancestors[i], ancestor) {
                return true;
            }
            i += 1;
        }
        false
    }

    fn template_parameter_at(&self, class: &Vec<char>, index: usize) -> (r: Option<TemplateParameter>) {
        proof {
            lemma_first_key(chars_of(self.generic_classes@), class@, 0);
        }
        match find_key(&self.generic_classes, class) {
            Some(i) => {
                if i < self.variances.len() && index < self.variances[i].len() {
                    Some(TemplateParameter { variance: self.variances[i][index], upper_bound: None })
                } else {
                    None
                }
            },
            None => None,
        }
    }

    fn inherited_template_argument(&self, child: &Vec<char>, ancestor: &Vec<char>, position: usize) -> (r: Option<
        Type,
    >) {
        let mut key = crate::element::copy_chars(child);
        key.push(':');
        let mut k: usize = 0;
        let ghost start = key@;
        while k < ancestor.len()
            invariant
                k <= ancestor.len(),
                key@ == start + ancestor@.take(k as int),
                start == child@ + seq![':'],
            decreases ancestor.len() - k,
        {
            key.push(ancestor[k]);
            assert(ancestor@.take(k + 1) =~= ancestor@.take(k as int).push(ancestor@[k as int]));
            assert(key@ =~= start + ancestor@.take(k + 1));
            k += 1;
        }
        assert(ancestor@.take(ancestor.len() as int) =~= ancestor@);
        assert(key@ =~= inherit_key(child@, ancestor@));
        proof {
            lemma_first_key(chars_of(self.inherits@), key@, 0);
        }
        match find_key(&self.inherits, &key) {
            Some(i) => {
                if i < self.inherited.len() && position < self.inherited[i].len() {
                    Some(self.inherited[i][position].copy())
                } else {
                    None
                }
            },
            None => None,
        }
    }

    fn template_parameter_index(&self, class: &Vec<char>, name: &Vec<char>) -> (r: Option<usize>) {
        None
    }

    fn is_final(&self, class: &Vec<char>) -> (r: bool) {
        match find_key(&self.finals, class) {
            Some(i) => {
                proof {
                    lemma_first_key(chars_of(self.finals@), class@, 0);
                    assert(chars_of(self.finals@)[i as int] == class@);
                }
                true
            },
            None => {
                proof {
                    lemma_first_key_absent(chars_of(self.finals@), class@, 0);
                }
                false
            },
        }
    }

    fn sealed_parent_of(&self, class: &Vec<char>) -> (r: Option<Vec<char>>) {
        proof {
            lemma_first_key(chars_of(self.sealed_children@), class@, 0);
        }
        match find_key(&self.sealed_children, class) {
            Some(i) => {
                if i < self.sealed_parents.len() {
                    Some(crate::element::copy_chars(&self.sealed_parents[i]))
                } else {
                    None
                }
            },
            None => None,
        }
    }

    fn template_parameter_arity(&self, class: &Vec<char>) -> (r: usize) {
        proof {
            lemma_first_key(chars_of(self.generic_classes@), class@, 0);
        }
        match find_key(&self.generic_classes, class) {
            Some(i) => {
                if i < self.variances.len() {
                    self.variances[i].len()
                } else {
                    0
                }
            },
            None => 0,
        }
    }
}

proof fn lemma_first_key_absent(keys: Seq<Seq<char>>, k: Seq<char>, i: int)
    requires
        0 <= i,
        first_key(keys, k, i) == -1,
    ensures
        forall|j: int| i <= j < keys.len() ==> keys[j] != k,
    decreases keys.len() - i,
{
    if i < keys.len() {
        lemma_first_key_absent(keys, k, i + 1);
    }
}

} // verus!
