//! The whole-model derivation: from one record or tagged-union
//! declaration to the shapes and constructor plans of both observable
//! companions.

use vstd::prelude::*;
use crate::models::{
    ctor_fields_view, field_decls_view, metas_view, strings_view, CtorFieldView, CtorShape,
    CtorView, DeclShape, DeclView, DeriveError, Deriver, EnumDecl, FeatureModel, FieldDeclView,
    FieldShape, FieldWrapper, GenericParamView, GenericsShape, MetaShape, StructDecl,
    VariantShape,
};
use crate::rc_derive::{lemma_rc_folds_agree, spec_rc_ctors, spec_rc_decls};
use crate::ref_derive::{lemma_ref_folds_agree, spec_ref_ctors, spec_ref_decls};
use crate::utils::{
    extract_features_from_attrs, spec_derive_features, spec_extract_features, spec_lifetimes,
    spec_ref_derive_features, stateful_ident,
};

verus! {

/// The body of a model declaration: record fields, union variants, or
/// something the derivation does not support.
#[derive(Debug, PartialEq, Eq)]
pub enum DataShape {
    Struct(Vec<FieldShape>),
    Enum(Vec<VariantShape>),
    Union,
}

/// Everything one derivation produces: both companion declarations and
/// both companion constructors.
#[derive(Debug, PartialEq, Eq)]
pub struct DerivedState {
    pub rc_decl: DeclShape,
    pub ref_decl: DeclShape,
    pub rc_ctor: CtorShape,
    pub ref_ctor: CtorShape,
}

/// The capability features named by the declaration's attributes.
pub open spec fn spec_features_of(attrs: Seq<crate::models::MetaView>) -> FeatureModel {
    spec_extract_features(
        FeatureModel { debug: false, clone: false, eq: false, ord: false },
        attrs,
        "state"@,
    )
}

/// The fields of a record declaration, wrapped for the deriver.
pub open spec fn struct_wrapped(data: Seq<FieldShape>) -> Seq<FieldWrapper> {
    Seq::new(data.len(), |i: int| FieldWrapper::Struct(data[i]))
}

/// The variants of a union declaration, wrapped for the deriver.
pub open spec fn enum_wrapped(data: Seq<VariantShape>) -> Seq<FieldWrapper> {
    Seq::new(data.len(), |i: int| FieldWrapper::Enum(data[i]))
}

/// What a successful derivation looks like, for either declaration
/// kind.
pub open spec fn derivation_ok(
    r: DerivedState,
    s: Seq<FieldWrapper>,
    ident: Seq<char>,
    generics: Seq<GenericParamView>,
    feats: FeatureModel,
    is_enum: bool,
) -> bool {
    &&& spec_rc_decls(s) matches Ok(fs) && r.rc_decl@ == (DeclView {
        ident: "Rc"@ + ident,
        generics: generics,
        derives: spec_derive_features(feats),
        is_enum: is_enum,
        fields: fs,
    })
    &&& spec_ref_decls(s) matches Ok(fs) && r.ref_decl@ == (DeclView {
        ident: "Ref"@ + ident,
        generics: seq![GenericParamView::Lifetime("stateful"@)] + generics,
        derives: spec_ref_derive_features(feats),
        is_enum: is_enum,
        fields: fs,
    })
    &&& spec_rc_ctors(s) matches Ok(fs) && r.rc_ctor@ == (CtorView {
        companion: "Rc"@ + ident,
        source: ident,
        generics: generics,
        source_generics: generics,
        ctor_lifetime: None,
        bounds: Seq::empty(),
        is_enum: is_enum,
        fields: fs,
    })
    &&& spec_ref_ctors(s) matches Ok(fs) && r.ref_ctor@ == (CtorView {
        companion: "Ref"@ + ident,
        source: ident,
        generics: seq![GenericParamView::Lifetime("stateful"@)] + generics,
        source_generics: generics,
        ctor_lifetime: Some("ctor_ref"@),
        bounds: spec_lifetimes(seq![GenericParamView::Lifetime("stateful"@)] + generics),
        is_enum: is_enum,
        fields: fs,
    })
}

/// Which error a failed derivation reports: the owned-shared side is
/// tried first, then the borrowed-scoped side.
pub open spec fn derivation_err(s: Seq<FieldWrapper>, e: DeriveError) -> bool {
    ||| spec_rc_decls(s) == Err::<Seq<FieldDeclView>, DeriveError>(e)
    ||| (spec_rc_decls(s) is Ok && spec_ref_decls(s) == Err::<Seq<FieldDeclView>, DeriveError>(e))
}

/// Derive both companions of a record declaration.
pub fn derive_struct(
    data: Vec<FieldShape>,
    struct_ident: String,
    generics: GenericsShape,
    attrs: Vec<MetaShape>,
) -> (r: Result<DerivedState, DeriveError>)
    ensures
        match r {
            Ok(ds) => derivation_ok(
                ds,
                struct_wrapped(data@),
                struct_ident@,
                generics@,
                spec_features_of(metas_view(attrs@)),
                false,
            ),
            Err(e) => derivation_err(struct_wrapped(data@), e),
        },
{
    let ghost data0 = data@;
    let mut features = FeatureModel::default();
    extract_features_from_attrs(&attrs, &stateful_ident(), &mut features);
    let deriver = Deriver::new_struct(struct_ident, generics, data, features);
    proof {
        assert(deriver.fields@ =~= struct_wrapped(data0));
        lemma_rc_folds_agree(deriver.fields@);
        lemma_ref_folds_agree(deriver.fields@);
    }
    let rc_decl = match deriver.derive_rc_decl() {
        Ok(d) => d,
        Err(e) => {
            return Err(e);
        },
    };
    let ref_decl = match deriver.derive_ref_decl() {
        Ok(d) => d,
        Err(e) => {
            return Err(e);
        },
    };
    let rc_ctor = match deriver.derive_rc_ctor() {
        Ok(c) => c,
        Err(e) => {
            return Err(e);
        },
    };
    let ref_ctor = match deriver.derive_ref_ctor() {
        Ok(c) => c,
        Err(e) => {
            return Err(e);
        },
    };
    Ok(DerivedState { rc_decl, ref_decl, rc_ctor, ref_ctor })
}

/// Derive both companions of a tagged-union declaration.
pub fn derive_enum(
    data: Vec<VariantShape>,
    struct_ident: String,
    generics: GenericsShape,
    attrs: Vec<MetaShape>,
) -> (r: Result<DerivedState, DeriveError>)
    ensures
        match r {
            Ok(ds) => derivation_ok(
                ds,
                enum_wrapped(data@),
                struct_ident@,
                generics@,
                spec_features_of(metas_view(attrs@)),
                true,
            ),
            Err(e) => derivation_err(enum_wrapped(data@), e),
        },
{
    let ghost data0 = data@;
    let mut features = FeatureModel::default();
    extract_features_from_attrs(&attrs, &stateful_ident(), &mut features);
    let deriver = Deriver::new_enum(struct_ident, generics, data, features);
    proof {
        assert(deriver.fields@ =~= enum_wrapped(data0));
        lemma_rc_folds_agree(deriver.fields@);
        lemma_ref_folds_agree(deriver.fields@);
    }
    let rc_decl = match deriver.derive_rc_decl() {
        Ok(d) => d,
        Err(e) => {
            return Err(e);
        },
    };
    let ref_decl = match deriver.derive_ref_decl() {
        Ok(d) => d,
        Err(e) => {
            return Err(e);
        },
    };
    let rc_ctor = match deriver.derive_rc_ctor() {
        Ok(c) => c,
        Err(e) => {
            return Err(e);
        },
    };
    let ref_ctor = match deriver.derive_ref_ctor() {
        Ok(c) => c,
        Err(e) => {
            return Err(e);
        },
    };
    Ok(DerivedState { rc_decl, ref_decl, rc_ctor, ref_ctor })
}

/// Derive both companions of any supported model declaration; a union
/// body is refused outright.
pub fn derive_stateful(
    ident: String,
    generics: GenericsShape,
    attrs: Vec<MetaShape>,
    data: DataShape,
) -> (r: Result<DerivedState, DeriveError>)
    ensures
        match data {
            DataShape::Struct(fields) => match r {
                Ok(ds) => derivation_ok(
                    ds,
                    struct_wrapped(fields@),
                    ident@,
                    generics@,
                    spec_features_of(metas_view(attrs@)),
                    false,
                ),
                Err(e) => derivation_err(struct_wrapped(fields@), e),
            },
            DataShape::Enum(variants) => match r {
                Ok(ds) => derivation_ok(
                    ds,
                    enum_wrapped(variants@),
                    ident@,
                    generics@,
                    spec_features_of(metas_view(attrs@)),
                    true,
                ),
                Err(e) => derivation_err(enum_wrapped(variants@), e),
            },
            DataShape::Union => r == Err::<DerivedState, DeriveError>(
                DeriveError::UnsupportedDeclaration,
            ),
        },
{
    match data {
        DataShape::Struct(fields) => derive_struct(fields, ident, generics, attrs),
        DataShape::Enum(variants) => derive_enum(variants, ident, generics, attrs),
        DataShape::Union => Err(DeriveError::UnsupportedDeclaration),
    }
}


/// Dual-representation shape equivalence: when a model derives on both
/// sides, the two companions expose the same fields under the same
/// names, in the source declaration's order.
pub proof fn lemma_dual_representation_shape(s: Seq<FieldWrapper>)
    requires
        spec_rc_decls(s) is Ok,
        spec_ref_decls(s) is Ok,
    ensures
        spec_rc_decls(s)->Ok_0.len() == s.len(),
        spec_ref_decls(s)->Ok_0.len() == s.len(),
        forall|i: int|
            0 <= i < s.len() ==> (#[trigger] spec_rc_decls(s)->Ok_0[i]).ident == (
            &s[i]).spec_ident(),
        forall|i: int|
            0 <= i < s.len() ==> (#[trigger] spec_ref_decls(s)->Ok_0[i]).ident == (
            &s[i]).spec_ident(),
    decreases s.len(),
{
    if s.len() > 0 {
        lemma_dual_representation_shape(s.drop_last());
    }
}

} // verus!
