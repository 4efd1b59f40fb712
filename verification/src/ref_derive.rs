//! Per-field wrapping rules for the borrowed-scoped companion: the same
//! classification table as the owned-shared side, with every cell
//! borrowed from the reactive scope and bounded by the `stateful`
//! lifetime, which is threaded through every nested companion type.

use vstd::prelude::*;
use crate::models::{
    lemma_arg_seq_view, lemma_segs_view, arg_seq_view, seg_view, segs_view, spec_insert_lifetime,
    insert_lifetime_into_generics, ArgView, ArgsView, CtorExprShape, CtorExprView,
    CtorFieldView, DeriveError,
    FieldDecl, FieldDeclView, FieldWrapper, GenericArgShape, PathArgsShape, PathSegment, SegView,
    TypeShape, TypeView,
};
use crate::utils::{
    field_refusal, is_collection, prepend_type, s_lifetime, spec_collection_elem,
    spec_field_attr, transform_safe, format_ref_ident,
};
use crate::rc_derive::last_ident;

verus! {

/// The borrowed-scoped cell of `inner`:
/// `&'stateful sycamore::prelude::Signal<inner>`.
pub open spec fn ref_signal_ty(inner: TypeView) -> TypeView {
    TypeView::Reference {
        lifetime: Some("stateful"@),
        elem: Box::new(
            TypeView::Path(
                seq![
                    SegView { ident: "sycamore"@, arguments: ArgsView::Empty },
                    SegView { ident: "prelude"@, arguments: ArgsView::Empty },
                    SegView {
                        ident: "Signal"@,
                        arguments: ArgsView::AngleBracketed(
                            seq![ArgView::TypeArg(Box::new(inner))],
                        ),
                    },
                ],
            ),
        ),
    }
}

/// The borrowed-scoped collection of `elem`:
/// `sycamore_state::RefCollectionSignal<'stateful, elem>`.
pub open spec fn ref_collection_ty(elem: TypeView) -> TypeView {
    TypeView::Path(
        seq![
            SegView { ident: "sycamore_state"@, arguments: ArgsView::Empty },
            SegView {
                ident: "RefCollectionSignal"@,
                arguments: ArgsView::AngleBracketed(
                    seq![ArgView::Lifetime("stateful"@), ArgView::TypeArg(Box::new(elem))],
                ),
            },
        ],
    )
}

/// A path type renamed to its borrowed-scoped companion: the last
/// segment gains the `Ref` prefix and the bounding lifetime is threaded
/// in front of its generic arguments.
pub open spec fn ref_renamed(t: TypeView) -> TypeView {
    match t {
        TypeView::Path(segs) => TypeView::Path(
            segs.update(
                segs.len() - 1,
                SegView {
                    ident: "Ref"@ + segs.last().ident,
                    arguments: spec_insert_lifetime(segs.last().arguments, "stateful"@),
                },
            ),
        ),
        _ => t,
    }
}

/// Whether a path type can take the borrowed-scoped rename: its last
/// segment must not carry parenthesized arguments.
pub open spec fn ref_renamable(t: TypeView) -> bool {
    match t {
        TypeView::Path(segs) => !(segs.last().arguments is Parenthesized),
        _ => false,
    }
}

/// Whether the borrowed-scoped wrapping rules accept the field.
pub open spec fn spec_ref_field_ok(f: FieldWrapper) -> bool {
    let stateful = f.spec_is_stateful();
    let coll = f.spec_is_collection();
    if stateful && coll {
        &&& spec_field_attr(f.spec_attrs(), "collection"@)
        &&& spec_collection_elem(f.spec_ty()) matches Some(e) && ref_renamable(e)
    } else if stateful {
        ref_renamable(f.spec_ty())
    } else if coll {
        &&& spec_field_attr(f.spec_attrs(), "collection"@)
        &&& spec_collection_elem(f.spec_ty()) is Some
    } else {
        true
    }
}

/// Which error a refused field reports.
pub open spec fn spec_ref_field_err(f: FieldWrapper) -> DeriveError {
    let stateful = f.spec_is_stateful();
    let coll = f.spec_is_collection();
    if stateful && coll {
        if spec_field_attr(f.spec_attrs(), "collection"@) && spec_collection_elem(
            f.spec_ty(),
        ) is Some {
            DeriveError::MalformedType
        } else {
            DeriveError::NotACollection
        }
    } else if stateful {
        DeriveError::MalformedType
    } else {
        DeriveError::NotACollection
    }
}

/// The borrowed-scoped companion type of one accepted field, per the
/// classification table.
pub open spec fn spec_ref_decl_ty(f: FieldWrapper) -> TypeView {
    let stateful = f.spec_is_stateful();
    let coll = f.spec_is_collection();
    if stateful && coll {
        ref_collection_ty(ref_renamed(spec_collection_elem(f.spec_ty()).unwrap()))
    } else if stateful {
        ref_signal_ty(ref_renamed(f.spec_ty()))
    } else if coll {
        ref_collection_ty(spec_collection_elem(f.spec_ty()).unwrap())
    } else {
        ref_signal_ty(f.spec_ty())
    }
}

/// The borrowed-scoped constructor step of one accepted field, per the
/// classification table.
pub open spec fn spec_ref_ctor_expr(f: FieldWrapper) -> CtorExprView {
    let stateful = f.spec_is_stateful();
    let coll = f.spec_is_collection();
    if stateful && coll {
        CtorExprView::StatefulCollection(
            "Ref"@ + last_ident(spec_collection_elem(f.spec_ty()).unwrap()),
        )
    } else if stateful {
        CtorExprView::Stateful("Ref"@ + last_ident(f.spec_ty()))
    } else if coll {
        CtorExprView::Collection
    } else {
        CtorExprView::Bare
    }
}

/// Build `&'stateful sycamore::prelude::Signal<inner>`.
fn ref_signal_shape(inner: TypeShape) -> (r: TypeShape)
    ensures
        r@ == ref_signal_ty(inner@),
{
    let mut args: Vec<GenericArgShape> = Vec::new();
    args.push(GenericArgShape::TypeArg(inner));
    proof {
        lemma_arg_seq_view(args@);
    }
    let mut segs: Vec<PathSegment> = Vec::new();
    segs.push(PathSegment { ident: "sycamore".to_owned(), arguments: PathArgsShape::Empty });
    segs.push(PathSegment { ident: "prelude".to_owned(), arguments: PathArgsShape::Empty });
    segs.push(
        PathSegment { ident: "Signal".to_owned(), arguments: PathArgsShape::AngleBracketed(args) },
    );
    let path_ty = TypeShape::Path(segs);
    proof {
        assert(arg_seq_view(args@) =~= seq![ArgView::TypeArg(Box::new(inner@))]);
        lemma_segs_view(segs@);
        assert(path_ty@ == TypeView::Path(segs_view(segs@)));
    }
    let r = TypeShape::Reference { lifetime: Some(s_lifetime()), elem: Box::new(path_ty) };
    proof {
        let expected = ref_signal_ty(inner@);
        assert(segs_view(segs@) =~= expected->Reference_elem->Path_0);
        assert(r@ =~= expected);
    }
    r
}

/// Build `sycamore_state::RefCollectionSignal<'stateful, elem>`.
fn ref_collection_shape(elem: TypeShape) -> (r: TypeShape)
    ensures
        r@ == ref_collection_ty(elem@),
{
    let mut args: Vec<GenericArgShape> = Vec::new();
    args.push(GenericArgShape::Lifetime(s_lifetime()));
    args.push(GenericArgShape::TypeArg(elem));
    proof {
        lemma_arg_seq_view(args@);
    }
    let mut segs: Vec<PathSegment> = Vec::new();
    segs.push(PathSegment { ident: "sycamore_state".to_owned(), arguments: PathArgsShape::Empty });
    segs.push(
        PathSegment {
            ident: "RefCollectionSignal".to_owned(),
            arguments: PathArgsShape::AngleBracketed(args),
        },
    );
    let r = TypeShape::Path(segs);
    proof {
        assert(arg_seq_view(args@) =~= seq![
            ArgView::Lifetime("stateful"@),
            ArgView::TypeArg(Box::new(elem@)),
        ]);
        lemma_segs_view(segs@);
        assert(segs_view(segs@) =~= ref_collection_ty(elem@)->Path_0);
    }
    r
}

/// Rename a path type to its borrowed-scoped companion: prefix the last
/// segment with `Ref` and thread the bounding lifetime through it.
fn ref_companion_path(ty: TypeShape) -> (r: TypeShape)
    requires
        ty@ matches TypeView::Path(s) && s.len() > 0 && !(s.last().arguments is Parenthesized),
    ensures
        r@ == ref_renamed(ty@),
{
    let ghost ty_v = ty@;
    let renamed = prepend_type("Ref", ty);
    match renamed {
        TypeShape::Path(segments) => {
            let mut segments = segments;
            let ghost rsegs = segments@;
            let n = segments.len();
            proof {
                lemma_segs_view(rsegs);
                assert(segs_view(rsegs).len() == ty_v->Path_0.len());
                assert(n == ty_v->Path_0.len());
                assert(segs_view(rsegs).last().arguments == ty_v->Path_0.last().arguments);
            }
            let mut last = segments.remove(n - 1);
            proof {
                assert(seg_view(last) == segs_view(rsegs).last());
                assert(!(seg_view(last).arguments is Parenthesized));
            }
            insert_lifetime_into_generics(&mut last, s_lifetime());
            segments.push(last);
            proof {
                lemma_segs_view(segments@);
                let target = ref_renamed(ty_v)->Path_0;
                assert forall|i: int| 0 <= i < n implies segs_view(segments@)[i] == target[i] by {
                    if i < n - 1 {
                        assert(segments@[i] == rsegs[i]);
                        assert(segs_view(rsegs)[i] == seg_view(rsegs[i]));
                        assert(segs_view(rsegs)[i] == ty_v->Path_0[i]);
                    } else {
                        assert(segments@[i] == last);
                    }
                }
                assert(segs_view(segments@) =~= target);
            }
            TypeShape::Path(segments)
        },
        _ => {
            proof {
                assert(false);
            }
            renamed
        },
    }
}

impl FieldWrapper {
    /// The borrowed-scoped companion's declaration of this field: the
    /// same name, with the type wrapped per its classification.
    pub fn to_ref_decl(&self) -> (r: Result<FieldDecl, DeriveError>)
        requires
            transform_safe(self),
        ensures
            spec_ref_field_ok(*self) ==> (r matches Ok(fd) && fd@.ident == self.spec_ident()
                && fd@.ty == spec_ref_decl_ty(*self)),
            !spec_ref_field_ok(*self) ==> r == Err::<FieldDecl, DeriveError>(
                spec_ref_field_err(*self),
            ),
    {
        let stateful = self.is_stateful();
        let coll = self.is_collection();
        if stateful && coll {
            match is_collection(self) {
                Some(elem) => {
                    let renamable: bool = match &elem {
                        TypeShape::Path(segments) => {
                            proof {
                                lemma_segs_view(segments@);
                            }
                            match &segments[segments.len() - 1].arguments {
                                PathArgsShape::Parenthesized => false,
                                _ => true,
                            }
                        },
                        _ => false,
                    };
                    if renamable {
                        let renamed = ref_companion_path(elem);
                        Ok(
                            FieldDecl {
                                ident: self.ident().clone(),
                                ty: ref_collection_shape(renamed),
                            },
                        )
                    } else {
                        Err(DeriveError::MalformedType)
                    }
                },
                None => Err(DeriveError::NotACollection),
            }
        } else if stateful {
            let ty = self.ref_ty();
            let renamable: bool = match ty {
                TypeShape::Path(segments) => {
                    proof {
                        lemma_segs_view(segments@);
                    }
                    match &segments[segments.len() - 1].arguments {
                        PathArgsShape::Parenthesized => false,
                        _ => true,
                    }
                },
                _ => false,
            };
            if renamable {
                let renamed = ref_companion_path(ty.duplicate());
                Ok(FieldDecl { ident: self.ident().clone(), ty: ref_signal_shape(renamed) })
            } else {
                Err(DeriveError::MalformedType)
            }
        } else if coll {
            match is_collection(self) {
                Some(elem) => Ok(
                    FieldDecl { ident: self.ident().clone(), ty: ref_collection_shape(elem) },
                ),
                None => Err(DeriveError::NotACollection),
            }
        } else {
            let ty = self.ref_ty().duplicate();
            Ok(FieldDecl { ident: self.ident().clone(), ty: ref_signal_shape(ty) })
        }
    }

    /// The borrowed-scoped constructor step of this field: how the cell
    /// is filled from the source value inside the construction scope.
    pub fn to_ref_ctor(&self) -> (r: Result<CtorExprShape, DeriveError>)
        requires
            transform_safe(self),
        ensures
            spec_ref_field_ok(*self) ==> (r matches Ok(e) && e@ == spec_ref_ctor_expr(*self)),
            !spec_ref_field_ok(*self) ==> r == Err::<CtorExprShape, DeriveError>(
                spec_ref_field_err(*self),
            ),
    {
        let stateful = self.is_stateful();
        let coll = self.is_collection();
        if stateful && coll {
            match is_collection(self) {
                Some(elem) => {
                    let renamable: bool = match &elem {
                        TypeShape::Path(segments) => {
                            proof {
                                lemma_segs_view(segments@);
                            }
                            match &segments[segments.len() - 1].arguments {
                                PathArgsShape::Parenthesized => false,
                                _ => true,
                            }
                        },
                        _ => false,
                    };
                    if renamable {
                        Ok(CtorExprShape::StatefulCollection(format_ref_ident(&last_ident_of(&elem))))
                    } else {
                        Err(DeriveError::MalformedType)
                    }
                },
                None => Err(DeriveError::NotACollection),
            }
        } else if stateful {
            let ty = self.ref_ty();
            let renamable: bool = match ty {
                TypeShape::Path(segments) => {
                    proof {
                        lemma_segs_view(segments@);
                    }
                    match &segments[segments.len() - 1].arguments {
                        PathArgsShape::Parenthesized => false,
                        _ => true,
                    }
                },
                _ => false,
            };
            if renamable {
                Ok(CtorExprShape::Stateful(format_ref_ident(&last_ident_of(ty))))
            } else {
                Err(DeriveError::MalformedType)
            }
        } else if coll {
            match is_collection(self) {
                Some(elem) => Ok(CtorExprShape::Collection),
                None => Err(DeriveError::NotACollection),
            }
        } else {
            Ok(CtorExprShape::Bare)
        }
    }
}

/// The identifier of the last segment of a path type.
fn last_ident_of(ty: &TypeShape) -> (r: String)
    requires
        ty@ matches TypeView::Path(s) && s.len() > 0,
    ensures
        r@ == last_ident(ty@),
{
    match ty {
        TypeShape::Path(segments) => {
            proof {
                lemma_segs_view(segments@);
            }
            segments[segments.len() - 1].ident.clone()
        },
        _ => {
            proof {
                assert(false);
            }
            String::new()
        },
    }
}


/// The refusal conditions and the wrapping rules together: what stops
/// this field, if anything.
pub open spec fn ref_field_check(f: FieldWrapper) -> Option<DeriveError> {
    match field_refusal(f) {
        Some(e) => Some(e),
        None => if !spec_ref_field_ok(f) {
            Some(spec_ref_field_err(f))
        } else {
            None
        },
    }
}

/// The declared fields of the companion, or the first error in field
/// order.
pub open spec fn spec_ref_decls(s: Seq<FieldWrapper>) -> Result<Seq<FieldDeclView>, DeriveError>
    decreases s.len(),
{
    if s.len() == 0 {
        Ok(Seq::empty())
    } else {
        match spec_ref_decls(s.drop_last()) {
            Ok(front) => match ref_field_check(s.last()) {
                Some(e) => Err(e),
                None => Ok(
                    front.push(
                        FieldDeclView {
                            ident: (&s.last()).spec_ident(),
                            ty: spec_ref_decl_ty(s.last()),
                        },
                    ),
                ),
            },
            Err(e) => Err(e),
        }
    }
}

/// The constructor steps of the companion, or the first error in field
/// order.
pub open spec fn spec_ref_ctors(s: Seq<FieldWrapper>) -> Result<Seq<CtorFieldView>, DeriveError>
    decreases s.len(),
{
    if s.len() == 0 {
        Ok(Seq::empty())
    } else {
        match spec_ref_ctors(s.drop_last()) {
            Ok(front) => match ref_field_check(s.last()) {
                Some(e) => Err(e),
                None => Ok(
                    front.push(
                        CtorFieldView {
                            ident: (&s.last()).spec_ident(),
                            expr: spec_ref_ctor_expr(s.last()),
                        },
                    ),
                ),
            },
            Err(e) => Err(e),
        }
    }
}

/// A refused field in first position of error stops the whole fold with
/// its own error.
pub proof fn lemma_ref_first_err(s: Seq<FieldWrapper>, i: int)
    requires
        0 <= i < s.len(),
        spec_ref_decls(s.take(i)) is Ok,
        spec_ref_ctors(s.take(i)) is Ok,
        ref_field_check(s[i]) is Some,
    ensures
        spec_ref_decls(s) == Err::<Seq<FieldDeclView>, DeriveError>(ref_field_check(s[i]).unwrap()),
        spec_ref_ctors(s) == Err::<Seq<CtorFieldView>, DeriveError>(ref_field_check(s[i]).unwrap()),
    decreases s.len(),
{
    if i == s.len() - 1 {
        assert(s.drop_last() =~= s.take(i));
        assert(s.last() == s[i]);
    } else {
        assert(s.drop_last().take(i) =~= s.take(i));
        assert(s.drop_last()[i] == s[i]);
        lemma_ref_first_err(s.drop_last(), i);
    }
}


/// The declaration fold and the constructor fold accept and refuse the
/// same field lists, with the same error.
pub proof fn lemma_ref_folds_agree(s: Seq<FieldWrapper>)
    ensures
        spec_ref_decls(s) is Ok <==> spec_ref_ctors(s) is Ok,
        (spec_ref_decls(s) matches Err(e) ==> spec_ref_ctors(s) == Err::<
            Seq<CtorFieldView>,
            DeriveError,
        >(e)),
    decreases s.len(),
{
    if s.len() > 0 {
        lemma_ref_folds_agree(s.drop_last());
    }
}

} // verus!
