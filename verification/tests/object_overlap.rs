use suffete::element::{Element, ObjectInfo, Type};
use suffete::lattice::object_overlap::object_overlap;
use suffete::lattice::options::LatticeOptions;
use suffete::lattice::overlaps::overlaps;
use suffete::lattice::refines::refines;
use suffete::lattice::report::LatticeReport;
use suffete::prelude::{type_int, type_string};
use suffete::world::{DeclaredWorld, NullWorld, Variance};

fn name(s: &str) -> Vec<char> {
    s.chars().collect()
}

fn object(class: &str, args: Vec<Type>) -> ObjectInfo {
    ObjectInfo { name: name(class), type_args: args }
}

/// `Final` is final; `Left` and `Right` are the sealed children of
/// `Shape`; `Box<T>` has one parameter of the given variance; `IntBox`
/// extends `Box<int>`.
fn codebase(variance: Variance) -> DeclaredWorld {
    DeclaredWorld {
        descendants: vec![name("Left"), name("Right"), name("IntBox")],
        ancestors: vec![name("Shape"), name("Shape"), name("Box")],
        finals: vec![name("Final")],
        sealed_children: vec![name("Left"), name("Right")],
        sealed_parents: vec![name("Shape"), name("Shape")],
        generic_classes: vec![name("Box")],
        variances: vec![vec![variance]],
        inherits: vec![name("IntBox:Box")],
        inherited: vec![vec![type_int()]],
    }
}

fn overlap(a: &ObjectInfo, b: &ObjectInfo, w: &DeclaredWorld) -> bool {
    object_overlap(a, b, w, LatticeOptions::default(), 0).0
}

fn refines_in(a: ObjectInfo, b: ObjectInfo, w: &DeclaredWorld) -> bool {
    let mut report = LatticeReport::new();
    refines(&Type::single(Element::Object(a)), &Type::single(Element::Object(b)), w, LatticeOptions::default(), &mut report)
}

#[test]
fn objects_overlap_in_a_codebase_that_declares_nothing() {
    let o = LatticeOptions::default();
    assert!(object_overlap(&object("Foo", vec![]), &object("Bar", vec![]), &NullWorld, o, 0).0);
    assert!(object_overlap(&object("Box", vec![type_int()]), &object("Box", vec![type_string()]), &NullWorld, o, 0).0);
    let (r, causes) = object_overlap(&object("Foo", vec![]), &object("Foo", vec![]), &NullWorld, o, 5);
    assert!(r);
    assert_eq!(causes, 5);
}

#[test]
fn a_final_class_meets_no_unrelated_class() {
    let w = codebase(Variance::Invariant);
    assert!(!overlap(&object("Final", vec![]), &object("Other", vec![]), &w));
    assert!(overlap(&object("Final", vec![]), &object("Final", vec![]), &w));
    assert!(overlap(&object("Other", vec![]), &object("Another", vec![]), &w));
}

#[test]
fn sealed_siblings_are_disjoint() {
    let w = codebase(Variance::Invariant);
    assert!(!overlap(&object("Left", vec![]), &object("Right", vec![]), &w));
    assert!(overlap(&object("Left", vec![]), &object("Shape", vec![]), &w));
    let mut report = LatticeReport::new();
    let left = Type::single(Element::Object(object("Left", vec![])));
    let right = Type::single(Element::Object(object("Right", vec![])));
    assert!(!overlaps(&left, &right, &w, LatticeOptions::default(), &mut report));
    assert!(overlaps(&left, &right, &NullWorld, LatticeOptions::default(), &mut report));
}

#[test]
fn arguments_of_one_class_follow_the_variance() {
    let boxed = |t: Type| object("Box", vec![t]);
    let inv = codebase(Variance::Invariant);
    assert!(!overlap(&boxed(type_int()), &boxed(type_string()), &inv));
    assert!(overlap(&boxed(type_int()), &boxed(type_int()), &inv));
    assert!(overlap(&boxed(type_int()), &object("Box", vec![]), &inv));
    let co = codebase(Variance::Covariant);
    assert!(!overlap(&boxed(type_int()), &boxed(type_string()), &co));
    let contra = codebase(Variance::Contravariant);
    assert!(overlap(&boxed(type_int()), &boxed(type_string()), &contra));
}

#[test]
fn a_descendant_passes_its_ancestor_arguments() {
    let w = codebase(Variance::Invariant);
    assert!(overlap(&object("IntBox", vec![]), &object("Box", vec![type_int()]), &w));
    assert!(!overlap(&object("IntBox", vec![]), &object("Box", vec![type_string()]), &w));
    assert!(!overlap(&object("Box", vec![type_string()]), &object("IntBox", vec![]), &w));
}

#[test]
fn objects_refine_their_ancestors() {
    let w = codebase(Variance::Covariant);
    assert!(refines_in(object("Left", vec![]), object("Shape", vec![]), &w));
    assert!(!refines_in(object("Shape", vec![]), object("Left", vec![]), &w));
    assert!(refines_in(object("IntBox", vec![]), object("Box", vec![type_int()]), &w));
    assert!(!refines_in(object("IntBox", vec![]), object("Box", vec![type_string()]), &w));
    let int_or_string = Type::union(vec![suffete::prelude::general_int(), suffete::prelude::string()]);
    assert!(refines_in(object("Box", vec![type_int()]), object("Box", vec![int_or_string.copy()]), &w));
    assert!(!refines_in(object("Box", vec![int_or_string]), object("Box", vec![type_int()]), &w));
    let mut report = LatticeReport::new();
    let left = Type::single(Element::Object(object("Left", vec![])));
    let shape = Type::single(Element::Object(object("Shape", vec![])));
    assert!(!refines(&left, &shape, &NullWorld, LatticeOptions::default(), &mut report));
}
