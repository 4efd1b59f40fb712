//! Helpers shared by the two derivations: marker names, identifier
//! prefixing, lifetime handling, feature extraction and the collection
//! classifier.

use vstd::prelude::*;
use crate::models::{
    lemma_arg_seq_view, lemma_segs_view, arg_seq_view, arg_view, seg_view, segs_view,
    strings_view, metas_view, meta_view, ArgView, ArgsView, DeriveError, FeatureModel, FieldWrapper, FieldWrapperView,
    GenericArgShape, GenericParamShape, GenericParamView, GenericsShape, MetaShape, MetaView,
    PathArgsShape, PathSegment, SegView, TypeShape, TypeView,
};

verus! {

/// The marker that classifies a field as stateful.
pub fn stateful_ident() -> (r: String)
    ensures
        r@ == "state"@,
{
    "state".to_owned()
}

/// The marker that classifies a field as a collection.
pub fn collection_ident() -> (r: String)
    ensures
        r@ == "collection"@,
{
    "collection".to_owned()
}

/// A lifetime name, kept without its apostrophe.
pub fn named_lifetime(name: &str) -> (r: String)
    ensures
        r@ == name@,
{
    name.to_owned()
}

/// The lifetime that bounds every borrowed-scoped cell.
pub fn s_lifetime() -> (r: String)
    ensures
        r@ == "stateful"@,
{
    named_lifetime("stateful")
}

/// The name of the borrowed-scoped companion of `ident`.
pub fn format_ref_ident(ident: &String) -> (r: String)
    ensures
        r@ == "Ref"@ + ident@,
{
    let mut s = "Ref".to_owned();
    s.append(ident.as_str());
    s
}

/// The name of the owned-shared companion of `ident`.
pub fn format_rc_ident(ident: &String) -> (r: String)
    ensures
        r@ == "Rc"@ + ident@,
{
    let mut s = "Rc".to_owned();
    s.append(ident.as_str());
    s
}

// ---------------------------------------------------------------------
// Feature extraction
// ---------------------------------------------------------------------
/// One word between the parentheses of the feature attribute, applied to
/// the feature set.
pub open spec fn apply_feature_word(f: FeatureModel, w: Seq<char>) -> FeatureModel {
    if w == "debug"@ {
        FeatureModel { debug: true, ..f }
    } else if w == "clone"@ {
        FeatureModel { clone: true, ..f }
    } else if w == "eq"@ {
        FeatureModel { eq: true, ..f }
    } else if w == "ord"@ {
        FeatureModel { ord: true, ..f }
    } else {
        f
    }
}

pub open spec fn apply_feature_words(f: FeatureModel, ws: Seq<Seq<char>>) -> FeatureModel
    decreases ws.len(),
{
    if ws.len() == 0 {
        f
    } else {
        apply_feature_word(apply_feature_words(f, ws.drop_last()), ws.last())
    }
}

/// Whether an attribute path is exactly the one given identifier.
pub open spec fn path_is_ident(path: Seq<Seq<char>>, ident: Seq<char>) -> bool {
    path.len() == 1 && path[0] == ident
}

pub open spec fn apply_feature_meta(f: FeatureModel, m: MetaView, ident: Seq<char>) -> FeatureModel {
    match m {
        MetaView::List { path, idents } => if path_is_ident(path, ident) {
            apply_feature_words(f, idents)
        } else {
            f
        },
        _ => f,
    }
}

pub open spec fn spec_extract_features(
    f: FeatureModel,
    attrs: Seq<MetaView>,
    ident: Seq<char>,
) -> FeatureModel
    decreases attrs.len(),
{
    if attrs.len() == 0 {
        f
    } else {
        apply_feature_meta(spec_extract_features(f, attrs.drop_last(), ident), attrs.last(), ident)
    }
}

/// Read the capability words out of every list attribute named `ident`
/// (for example `state(clone, eq)`) into the feature set.
pub fn extract_features_from_attrs(
    attrs: &Vec<MetaShape>,
    ident: &String,
    features: &mut FeatureModel,
)
    ensures
        *final(features) == spec_extract_features(*old(features), metas_view(attrs@), ident@),
{
    let ghost f0 = *features;
    let ghost attrs_v = metas_view(attrs@);
    let n = attrs.len();
    let mut i: usize = 0;
    while i < n
        invariant
            n == attrs@.len(),
            i <= n,
            attrs_v == metas_view(attrs@),
            *features == spec_extract_features(f0, attrs_v.take(i as int), ident@),
        decreases n - i,
    {
        let ghost before = *features;
        match &attrs[i] {
            MetaShape::List { path, idents } => {
                if path.len() == 1 && path[0] == *ident {
                    let ghost words = strings_view(idents@);
                    let m = idents.len();
                    let mut j: usize = 0;
                    while j < m
                        invariant
                            m == idents@.len(),
                            j <= m,
                            words == strings_view(idents@),
                            *features == apply_feature_words(before, words.take(j as int)),
                        decreases m - j,
                    {
                        let w = &idents[j];
                        if *w == "debug".to_owned() {
                            features.debug = true;
                        } else if *w == "clone".to_owned() {
                            features.clone = true;
                        } else if *w == "eq".to_owned() {
                            features.eq = true;
                        } else if *w == "ord".to_owned() {
                            features.ord = true;
                        }
                        proof {
                            assert(words.take(j + 1).drop_last() =~= words.take(j as int));
                            assert(words.take(j + 1).last() == idents@[j as int]@);
                        }
                        j += 1;
                    }
                    proof {
                        assert(words.take(m as int) =~= words);
                    }
                } else {
                    proof {
                        assert(!path_is_ident(strings_view(path@), ident@)) by {
                            if path@.len() == 1 {
                                assert(strings_view(path@)[0] == path@[0]@);
                            }
                        }
                    }
                }
            },
            MetaShape::Path(path) => {
            },
            MetaShape::NameValue => {
            },
        }
        proof {
            assert(attrs_v[i as int] == meta_view(attrs@[i as int]));
            assert(*features == apply_feature_meta(before, attrs_v[i as int], ident@));
            assert(attrs_v.take(i + 1).drop_last() =~= attrs_v.take(i as int));
            assert(attrs_v.take(i + 1).last() == attrs_v[i as int]);
        }
        i += 1;
    }
    proof {
        assert(attrs_v.take(n as int) =~= attrs_v);
    }
}

// ---------------------------------------------------------------------
// Attribute lookup, any-segment form
// ---------------------------------------------------------------------
/// Whether a list of identifiers contains `w`.
fn contains_string(v: &Vec<String>, w: &String) -> (r: bool)
    ensures
        r == exists|j: int| 0 <= j < v@.len() && (#[trigger] v@[j])@ == w@,
{
    let n = v.len();
    let mut i: usize = 0;
    while i < n
        invariant
            n == v@.len(),
            i <= n,
            forall|j: int| 0 <= j < i ==> (#[trigger] v@[j])@ != w@,
        decreases n - i,
    {
        if v[i] == *w {
            return true;
        }
        i += 1;
    }
    false
}

/// Whether one attribute answers to `ident` the way the field lookup
/// reads it: any segment of its path, and a list attribute only when its
/// parentheses name `inner_state`.
pub open spec fn field_meta_matches(m: MetaView, ident: Seq<char>) -> bool {
    match m {
        MetaView::Path(segs) => exists|j: int| 0 <= j < segs.len() && (#[trigger] segs[j]) == ident,
        MetaView::List { path, idents } => (exists|k: int|
            0 <= k < idents.len() && (#[trigger] idents[k]) == "inner_state"@) && (exists|j: int|
            0 <= j < path.len() && (#[trigger] path[j]) == ident),
        MetaView::NameValue => false,
    }
}

pub open spec fn spec_field_attr(attrs: Seq<MetaView>, ident: Seq<char>) -> bool {
    exists|i: int| 0 <= i < attrs.len() && field_meta_matches(#[trigger] attrs[i], ident)
}

/// Look `ident` up among a field's attributes, reading any path segment,
/// and return the matched identifier.
pub fn extract_attribute_from_field(attrs: &Vec<MetaShape>, ident: &String) -> (r: Option<String>)
    ensures
        r is Some <==> spec_field_attr(metas_view(attrs@), ident@),
        r matches Some(s) ==> s@ == ident@,
{
    let ghost attrs_v = metas_view(attrs@);
    let n = attrs.len();
    let mut i: usize = 0;
    while i < n
        invariant
            n == attrs@.len(),
            i <= n,
            attrs_v == metas_view(attrs@),
            forall|j: int| 0 <= j < i ==> !field_meta_matches(#[trigger] attrs_v[j], ident@),
        decreases n - i,
    {
        proof {
            assert(attrs_v[i as int] == meta_view(attrs@[i as int]));
        }
        match &attrs[i] {
            MetaShape::Path(segs) => {
                if contains_string(segs, ident) {
                    proof {
                        let j = choose|j: int|
                            0 <= j < segs@.len() && (#[trigger] segs@[j])@ == ident@;
                        assert(strings_view(segs@).len() == segs@.len());
                        assert(strings_view(segs@)[j] == ident@);
                        assert(attrs_v[i as int] == MetaView::Path(strings_view(segs@)));
                        assert(field_meta_matches(attrs_v[i as int], ident@)) by {
                            let m = attrs_v[i as int];
                            match m {
                                MetaView::Path(sv) => {
                                    assert(0 <= j < sv.len() && (#[trigger] sv[j]) == ident@);
                                },
                                MetaView::List { path, idents } => {
                                },
                                MetaView::NameValue => {
                                },
                            }
                        }
                    }
                    return Some(ident.clone());
                }
                proof {
                    assert forall|j: int|
                        0 <= j < strings_view(segs@).len() implies #[trigger] strings_view(segs@)[j]
                        != ident@ by {
                        assert(strings_view(segs@)[j] == segs@[j]@);
                    }
                }
            },
            MetaShape::List { path, idents } => {
                let inner_marker = "inner_state".to_owned();
                if contains_string(idents, &inner_marker) {
                    if contains_string(path, ident) {
                        proof {
                            let k = choose|k: int|
                                0 <= k < idents@.len() && (#[trigger] idents@[k])@ == inner_marker@;
                            assert(strings_view(idents@)[k] == "inner_state"@);
                            let j = choose|j: int|
                                0 <= j < path@.len() && (#[trigger] path@[j])@ == ident@;
                            assert(strings_view(idents@).len() == idents@.len());
                            assert(strings_view(idents@)[k] == "inner_state"@);
                            assert(strings_view(path@).len() == path@.len());
                            assert(strings_view(path@)[j] == ident@);
                            assert(attrs_v[i as int] == (MetaView::List {
                                path: strings_view(path@),
                                idents: strings_view(idents@),
                            }));
                            assert(field_meta_matches(attrs_v[i as int], ident@)) by {
                                let m = attrs_v[i as int];
                                match m {
                                    MetaView::Path(sv) => {
                                    },
                                    MetaView::List { path: pv, idents: iv } => {
                                        assert(0 <= k < iv.len() && (#[trigger] iv[k])
                                            == "inner_state"@);
                                        assert(0 <= j < pv.len() && (#[trigger] pv[j]) == ident@);
                                    },
                                    MetaView::NameValue => {
                                    },
                                }
                            }
                        }
                        return Some(ident.clone());
                    }
                    proof {
                        assert forall|j: int|
                            0 <= j < strings_view(path@).len() implies #[trigger] strings_view(
                            path@,
                        )[j] != ident@ by {
                            assert(strings_view(path@)[j] == path@[j]@);
                        }
                    }
                } else {
                    proof {
                        assert forall|k: int|
                            0 <= k < strings_view(idents@).len() implies #[trigger] strings_view(
                            idents@,
                        )[k] != "inner_state"@ by {
                            assert(strings_view(idents@)[k] == idents@[k]@);
                        }
                    }
                }
            },
            MetaShape::NameValue => {
            },
        }
        i += 1;
    }
    None
}

/// Whether one attribute answers to `ident` the way the variant lookup
/// reads it: any segment of a plain path attribute.
pub open spec fn variant_meta_matches(m: MetaView, ident: Seq<char>) -> bool {
    match m {
        MetaView::Path(segs) => exists|j: int| 0 <= j < segs.len() && (#[trigger] segs[j]) == ident,
        _ => false,
    }
}

pub open spec fn spec_variant_attr(attrs: Seq<MetaView>, ident: Seq<char>) -> bool {
    exists|i: int| 0 <= i < attrs.len() && variant_meta_matches(#[trigger] attrs[i], ident)
}

/// Look `ident` up among a variant's plain path attributes.
pub fn extract_attribute_from_variant(variant: &crate::models::VariantShape, ident: &String) -> (r:
    Option<String>)
    ensures
        r is Some <==> spec_variant_attr(metas_view(variant.attrs@), ident@),
        r matches Some(s) ==> s@ == ident@,
{
    let ghost attrs_v = metas_view(variant.attrs@);
    let n = variant.attrs.len();
    let mut i: usize = 0;
    while i < n
        invariant
            n == variant.attrs@.len(),
            i <= n,
            attrs_v == metas_view(variant.attrs@),
            forall|j: int| 0 <= j < i ==> !variant_meta_matches(#[trigger] attrs_v[j], ident@),
        decreases n - i,
    {
        proof {
            assert(attrs_v[i as int] == meta_view(variant.attrs@[i as int]));
        }
        match &variant.attrs[i] {
            MetaShape::Path(segs) => {
                if contains_string(segs, ident) {
                    proof {
                        let j = choose|j: int|
                            0 <= j < segs@.len() && (#[trigger] segs@[j])@ == ident@;
                        assert(strings_view(segs@).len() == segs@.len());
                        assert(strings_view(segs@)[j] == ident@);
                        assert(attrs_v[i as int] == MetaView::Path(strings_view(segs@)));
                        assert(variant_meta_matches(attrs_v[i as int], ident@)) by {
                            let m = attrs_v[i as int];
                            match m {
                                MetaView::Path(sv) => {
                                    assert(0 <= j < sv.len() && (#[trigger] sv[j]) == ident@);
                                },
                                MetaView::List { path, idents } => {
                                },
                                MetaView::NameValue => {
                                },
                            }
                        }
                    }
                    return Some(ident.clone());
                }
                proof {
                    assert forall|j: int|
                        0 <= j < strings_view(segs@).len() implies #[trigger] strings_view(segs@)[j]
                        != ident@ by {
                        assert(strings_view(segs@)[j] == segs@[j]@);
                    }
                }
            },
            MetaShape::List { path, idents } => {
            },
            MetaShape::NameValue => {
            },
        }
        i += 1;
    }
    None
}


// ---------------------------------------------------------------------
// Generics and identifier transforms
// ---------------------------------------------------------------------
/// The lifetime names among the generic parameters, in order.
pub open spec fn spec_lifetimes(params: Seq<GenericParamView>) -> Seq<Seq<char>>
    decreases params.len(),
{
    if params.len() == 0 {
        Seq::empty()
    } else {
        let front = spec_lifetimes(params.drop_last());
        match params.last() {
            GenericParamView::Lifetime(l) => front.push(l),
            _ => front,
        }
    }
}

/// Collect the lifetime parameters of the declaration, in order.
pub fn extract_lifetimes(generics: &GenericsShape) -> (r: Vec<String>)
    ensures
        strings_view(r@) == spec_lifetimes(generics@),
{
    let ghost pv = generics@;
    let n = generics.params.len();
    let mut r: Vec<String> = Vec::new();
    proof {
        assert(pv.take(0) =~= Seq::<GenericParamView>::empty());
        assert(strings_view(r@) =~= spec_lifetimes(pv.take(0)));
    }
    let mut i: usize = 0;
    while i < n
        invariant
            n == generics.params@.len(),
            i <= n,
            pv == generics@,
            pv.len() == n,
            strings_view(r@) == spec_lifetimes(pv.take(i as int)),
        decreases n - i,
    {
        let ghost r0 = r@;
        match &generics.params[i] {
            GenericParamShape::Lifetime(l) => {
                r.push(l.clone());
                proof {
                    assert(strings_view(r@) =~= strings_view(r0).push(l@));
                }
            },
            GenericParamShape::TypeParam(t) => {
            },
            GenericParamShape::ConstParam(c) => {
            },
        }
        proof {
            assert(pv[i as int] == generics.params@[i as int]@);
            assert(pv.take(i + 1).drop_last() =~= pv.take(i as int));
            assert(pv.take(i + 1).last() == pv[i as int]);
        }
        i += 1;
    }
    proof {
        assert(pv.take(n as int) =~= pv);
    }
    r
}

/// The derive list both companions share, as the requested features ask
/// for it.
pub open spec fn spec_derive_features(f: FeatureModel) -> Seq<Seq<char>> {
    (if f.clone {
        seq!["Clone"@]
    } else {
        Seq::<Seq<char>>::empty()
    }) + (if f.eq {
        seq!["PartialEq"@, "Eq"@]
    } else {
        Seq::<Seq<char>>::empty()
    }) + (if f.debug {
        seq!["Debug"@]
    } else {
        Seq::<Seq<char>>::empty()
    }) + (if f.ord {
        seq!["PartialOrd"@, "Ord"@]
    } else {
        Seq::<Seq<char>>::empty()
    })
}

/// The derive identifiers for the owned-shared companion.
pub fn make_derive_features(features: &FeatureModel) -> (r: Vec<String>)
    ensures
        strings_view(r@) == spec_derive_features(*features),
{
    let mut r: Vec<String> = Vec::new();
    if features.clone {
        r.push("Clone".to_owned());
    }
    if features.eq {
        r.push("PartialEq".to_owned());
        r.push("Eq".to_owned());
    }
    if features.debug {
        r.push("Debug".to_owned());
    }
    if features.ord {
        r.push("PartialOrd".to_owned());
        r.push("Ord".to_owned());
    }
    proof {
        assert(strings_view(r@) =~= spec_derive_features(*features));
    }
    r
}

/// The derive list of the borrowed-scoped companion: it is always
/// copyable and cheaply cloneable, and never re-derives a deep clone.
pub open spec fn spec_ref_derive_features(f: FeatureModel) -> Seq<Seq<char>> {
    seq!["Copy"@, "Clone"@] + (if f.eq {
        seq!["PartialEq"@, "Eq"@]
    } else {
        Seq::<Seq<char>>::empty()
    }) + (if f.debug {
        seq!["Debug"@]
    } else {
        Seq::<Seq<char>>::empty()
    }) + (if f.ord {
        seq!["PartialOrd"@, "Ord"@]
    } else {
        Seq::<Seq<char>>::empty()
    })
}

/// The derive identifiers for the borrowed-scoped companion.
pub fn make_ref_derive_features(features: &FeatureModel) -> (r: Vec<String>)
    ensures
        strings_view(r@) == spec_ref_derive_features(*features),
{
    let mut r: Vec<String> = Vec::new();
    r.push("Copy".to_owned());
    r.push("Clone".to_owned());
    if features.eq {
        r.push("PartialEq".to_owned());
        r.push("Eq".to_owned());
    }
    if features.debug {
        r.push("Debug".to_owned());
    }
    if features.ord {
        r.push("PartialOrd".to_owned());
        r.push("Ord".to_owned());
    }
    proof {
        assert(strings_view(r@) =~= spec_ref_derive_features(*features));
    }
    r
}

/// Prefix the last segment of a path type with `label`.
pub fn prepend_type(label: &str, ty: TypeShape) -> (r: TypeShape)
    requires
        ty@ matches TypeView::Path(segs) && segs.len() > 0,
    ensures
        ({
            let segs = ty@->Path_0;
            let last = segs.last();
            r@ == TypeView::Path(
                segs.update(
                    segs.len() - 1,
                    SegView { ident: label@ + last.ident, arguments: last.arguments },
                ),
            )
        }),
{
    match ty {
        TypeShape::Path(segments) => {
            let ghost old_segs = segments@;
            let mut segments = segments;
            let n = segments.len();
            proof {
                lemma_segs_view(old_segs);
            }
            let last = segments.remove(n - 1);
            let mut ident = label.to_owned();
            ident.append(last.ident.as_str());
            segments.push(PathSegment { ident, arguments: last.arguments });
            proof {
                lemma_segs_view(segments@);
                let segs = segs_view(old_segs);
                assert(segs_view(segments@) =~= segs.update(
                    segs.len() - 1,
                    SegView {
                        ident: label@ + segs.last().ident,
                        arguments: segs.last().arguments,
                    },
                ));
            }
            TypeShape::Path(segments)
        },
        _ => {
            proof {
                assert(false);
            }
            ty
        },
    }
}

/// Strip the generic arguments off the last segment of a path type.
pub fn remove_generics(ty: &mut TypeShape)
    requires
        old(ty)@ matches TypeView::Path(segs) && segs.len() > 0,
    ensures
        ({
            let segs = old(ty)@->Path_0;
            let last = segs.last();
            final(ty)@ == TypeView::Path(
                segs.update(
                    segs.len() - 1,
                    SegView { ident: last.ident, arguments: ArgsView::Empty },
                ),
            )
        }),
{
    match ty {
        TypeShape::Path(segments) => {
            let ghost old_segs = segments@;
            let n = segments.len();
            proof {
                lemma_segs_view(old_segs);
            }
            let last = segments.remove(n - 1);
            segments.push(PathSegment { ident: last.ident, arguments: PathArgsShape::Empty });
            proof {
                lemma_segs_view(segments@);
                let segs = segs_view(old_segs);
                assert(segs_view(segments@) =~= segs.update(
                    segs.len() - 1,
                    SegView { ident: segs.last().ident, arguments: ArgsView::Empty },
                ));
            }
        },
        _ => {
            proof {
                assert(false);
            }
        },
    }
}

// ---------------------------------------------------------------------
// The collection classifier
// ---------------------------------------------------------------------
/// The element type of a collection-shaped type: the element of a
/// fixed-size array, or the first type argument of the last segment of a
/// path type. Everything else has no extractable element.
pub open spec fn spec_collection_elem(t: TypeView) -> Option<TypeView> {
    match t {
        TypeView::Array { elem, len } => Some(*elem),
        TypeView::Path(segs) => if segs.len() == 0 {
            None
        } else {
            match segs.last().arguments {
                ArgsView::AngleBracketed(args) => if args.len() == 0 {
                    None
                } else {
                    match args[0] {
                        ArgView::TypeArg(e) => Some(*e),
                        _ => None,
                    }
                },
                _ => None,
            }
        },
        _ => None,
    }
}

/// Whether the classifier can read the type without running into a
/// malformed path: a path type must have a segment, and angle brackets
/// must not be empty.
pub open spec fn collection_shape_safe(t: TypeView) -> bool {
    match t {
        TypeView::Path(segs) => segs.len() > 0 && (match segs.last().arguments {
            ArgsView::AngleBracketed(args) => args.len() > 0,
            _ => true,
        }),
        _ => true,
    }
}

/// Classify one field: if it carries the collection marker and its type
/// is collection-shaped, extract the element type.
pub fn is_collection(field: &FieldWrapper) -> (r: Option<TypeShape>)
    requires
        spec_field_attr(field.spec_attrs(), "collection"@) ==> field.spec_has_payload()
            && collection_shape_safe(field.spec_ty()),
    ensures
        match r {
            Some(elem) => spec_field_attr(field.spec_attrs(), "collection"@)
                && spec_collection_elem(field.spec_ty()) == Some(elem@),
            None => !spec_field_attr(field.spec_attrs(), "collection"@) || spec_collection_elem(
                field.spec_ty(),
            ) is None,
        },
{
    if extract_attribute_from_field(field.attrs(), &collection_ident()).is_some() {
        match field.ref_ty() {
            TypeShape::Array { elem, len } => Some(elem.duplicate()),
            TypeShape::Path(segments) => {
                let n = segments.len();
                proof {
                    lemma_segs_view(segments@);
                }
                match &segments[n - 1].arguments {
                    PathArgsShape::AngleBracketed(args) => {
                        proof {
                            lemma_arg_seq_view(args@);
                        }
                        match &args[0] {
                            GenericArgShape::TypeArg(t) => Some(t.duplicate()),
                            GenericArgShape::Lifetime(l) => None,
                            GenericArgShape::ConstArg(c) => None,
                        }
                    },
                    PathArgsShape::Empty => None,
                    PathArgsShape::Parenthesized => None,
                }
            },
            TypeShape::Reference { lifetime, elem } => None,
            TypeShape::Other => None,
        }
    } else {
        None
    }
}


/// The shallow well-formedness the per-field transforms need: a payload
/// to read, no empty path where a segment is read, and no empty angle
/// brackets where an element is extracted.
pub open spec fn transform_safe(f: &FieldWrapper) -> bool {
    &&& f.spec_has_payload()
    &&& (f.spec_ty() matches TypeView::Path(s) ==> s.len() > 0)
    &&& collection_shape_safe(f.spec_ty())
    &&& (spec_collection_elem(f.spec_ty()) matches Some(e) ==> (e matches TypeView::Path(s)
        ==> s.len() > 0))
}


/// Whether a union case carries exactly one payload; record fields
/// always do.
pub open spec fn arity_ok(f: FieldWrapper) -> bool {
    match f@ {
        FieldWrapperView::Enum(v) => v.payload.len() == 1,
        FieldWrapperView::Struct(fs) => true,
    }
}

/// What refuses a field before its type is transformed, if anything;
/// a refused field aborts the whole derivation.
pub open spec fn field_refusal(f: FieldWrapper) -> Option<DeriveError> {
    if !arity_ok(f) {
        Some(DeriveError::VariantArity)
    } else if !transform_safe(&f) {
        Some(DeriveError::MalformedType)
    } else {
        None
    }
}

/// Whether a type that may stand as an extracted element is sound to
/// read further: a path type must have a segment.
fn elem_path_ok(t: &TypeShape) -> (r: bool)
    ensures
        r == (t@ matches TypeView::Path(s) ==> s.len() > 0),
{
    match t {
        TypeShape::Path(segments) => {
            proof {
                lemma_segs_view(segments@);
            }
            segments.len() > 0
        },
        _ => true,
    }
}

/// What refuses this field, if anything.
pub fn check_field(f: &FieldWrapper) -> (r: Option<DeriveError>)
    ensures
        r == field_refusal(*f),
{
    let ok_arity: bool = match f {
        FieldWrapper::Enum(v) => v.payload.len() == 1,
        FieldWrapper::Struct(fs) => true,
    };
    if !ok_arity {
        return Some(DeriveError::VariantArity);
    }
    let ty = f.ref_ty();
    let ghost tv = f.spec_ty();
    match ty {
        TypeShape::Path(segments) => {
            proof {
                lemma_segs_view(segments@);
            }
            if segments.len() == 0 {
                proof {
                    assert(!transform_safe(f));
                }
                return Some(DeriveError::MalformedType);
            }
            proof {
                assert(segs_view(segments@).last() == seg_view(segments@[segments@.len() - 1]));
            }
            match &segments[segments.len() - 1].arguments {
                PathArgsShape::AngleBracketed(args) => {
                    proof {
                        lemma_arg_seq_view(args@);
                    }
                    if args.len() == 0 {
                        proof {
                            assert(!collection_shape_safe(tv));
                        }
                        return Some(DeriveError::MalformedType);
                    }
                    proof {
                        assert(arg_seq_view(args@)[0] == arg_view(args@[0]));
                    }
                    match &args[0] {
                        GenericArgShape::TypeArg(t) => {
                            if elem_path_ok(t) {
                                proof {
                                    assert(transform_safe(f));
                                }
                                None
                            } else {
                                proof {
                                    assert(!transform_safe(f));
                                }
                                Some(DeriveError::MalformedType)
                            }
                        },
                        GenericArgShape::Lifetime(l) => {
                            proof {
                                assert(transform_safe(f));
                            }
                            None
                        },
                        GenericArgShape::ConstArg(c) => {
                            proof {
                                assert(transform_safe(f));
                            }
                            None
                        },
                    }
                },
                PathArgsShape::Empty => {
                    proof {
                        assert(transform_safe(f));
                    }
                    None
                },
                PathArgsShape::Parenthesized => {
                    proof {
                        assert(transform_safe(f));
                    }
                    None
                },
            }
        },
        TypeShape::Array { elem, len } => {
            if elem_path_ok(&**elem) {
                proof {
                    assert(transform_safe(f));
                }
                None
            } else {
                proof {
                    assert(!transform_safe(f));
                }
                Some(DeriveError::MalformedType)
            }
        },
        TypeShape::Reference { lifetime, elem } => {
            proof {
                assert(transform_safe(f));
            }
            None
        },
        TypeShape::Other => {
            proof {
                assert(transform_safe(f));
            }
            None
        },
    }
}

} // verus!
