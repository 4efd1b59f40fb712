//! Per-field wrapping rules for the owned-shared companion: each field's
//! type is re-expressed as an independently observable cell per its
//! classification, and the constructor plan says how the cell is filled
//! from the source value.

use vstd::prelude::*;
use crate::models::{
    lemma_arg_seq_view, lemma_segs_view, arg_seq_view, segs_view, ArgView, ArgsView,
    CtorExprShape, CtorExprView, CtorFieldView, DeriveError, FieldDecl, FieldDeclView,
    FieldWrapper,
    GenericArgShape, PathArgsShape, PathSegment, SegView, TypeShape, TypeView,
};
use crate::utils::{
    field_refusal, is_collection, prepend_type, spec_collection_elem, spec_field_attr,
    transform_safe, format_rc_ident,
};

verus! {

/// The owned-shared cell of `inner`: `sycamore::prelude::RcSignal<inner>`.
pub open spec fn rc_signal_ty(inner: TypeView) -> TypeView {
    TypeView::Path(
        seq![
            SegView { ident: "sycamore"@, arguments: ArgsView::Empty },
            SegView { ident: "prelude"@, arguments: ArgsView::Empty },
            SegView {
                ident: "RcSignal"@,
                arguments: ArgsView::AngleBracketed(seq![ArgView::TypeArg(Box::new(inner))]),
            },
        ],
    )
}

/// The owned-shared collection of `elem`:
/// `sycamore_state::RcCollectionSignal<elem>`.
pub open spec fn rc_collection_ty(elem: TypeView) -> TypeView {
    TypeView::Path(
        seq![
            SegView { ident: "sycamore_state"@, arguments: ArgsView::Empty },
            SegView {
                ident: "RcCollectionSignal"@,
                arguments: ArgsView::AngleBracketed(seq![ArgView::TypeArg(Box::new(elem))]),
            },
        ],
    )
}

/// A path type renamed to its owned-shared companion: the last segment's
/// identifier gains the `Rc` prefix.
pub open spec fn rc_renamed(t: TypeView) -> TypeView {
    match t {
        TypeView::Path(segs) => TypeView::Path(
            segs.update(
                segs.len() - 1,
                SegView { ident: "Rc"@ + segs.last().ident, arguments: segs.last().arguments },
            ),
        ),
        _ => t,
    }
}

/// The identifier of the last segment of a path type.
pub open spec fn last_ident(t: TypeView) -> Seq<char> {
    match t {
        TypeView::Path(segs) => segs.last().ident,
        _ => Seq::empty(),
    }
}

/// Whether the owned-shared wrapping rules accept the field.
pub open spec fn spec_rc_field_ok(f: FieldWrapper) -> bool {
    let stateful = f.spec_is_stateful();
    let coll = f.spec_is_collection();
    if stateful && coll {
        &&& spec_field_attr(f.spec_attrs(), "collection"@)
        &&& spec_collection_elem(f.spec_ty()) matches Some(e) && e is Path
    } else if stateful {
        f.spec_ty() is Path
    } else if coll {
        &&& spec_field_attr(f.spec_attrs(), "collection"@)
        &&& spec_collection_elem(f.spec_ty()) is Some
    } else {
        true
    }
}

/// Which error a refused field reports.
pub open spec fn spec_rc_field_err(f: FieldWrapper) -> DeriveError {
    let stateful = f.spec_is_stateful();
    let coll = f.spec_is_collection();
    if stateful && coll {
        if spec_field_attr(f.spec_attrs(), "collection"@) && spec_collection_elem(
            f.spec_ty(),
        ) is Some {
            DeriveError::MalformedType
        } else {
            DeriveError::NotACollection
        }
    } else if stateful {
        DeriveError::MalformedType
    } else {
        DeriveError::NotACollection
    }
}

/// The owned-shared companion type of one accepted field, per the
/// classification table.
pub open spec fn spec_rc_decl_ty(f: FieldWrapper) -> TypeView {
    let stateful = f.spec_is_stateful();
    let coll = f.spec_is_collection();
    if stateful && coll {
        rc_collection_ty(rc_renamed(spec_collection_elem(f.spec_ty()).unwrap()))
    } else if stateful {
        rc_signal_ty(rc_renamed(f.spec_ty()))
    } else if coll {
        rc_collection_ty(spec_collection_elem(f.spec_ty()).unwrap())
    } else {
        rc_signal_ty(f.spec_ty())
    }
}

/// The owned-shared constructor step of one accepted field, per the
/// classification table.
pub open spec fn spec_rc_ctor_expr(f: FieldWrapper) -> CtorExprView {
    let stateful = f.spec_is_stateful();
    let coll = f.spec_is_collection();
    if stateful && coll {
        CtorExprView::StatefulCollection(
            "Rc"@ + last_ident(spec_collection_elem(f.spec_ty()).unwrap()),
        )
    } else if stateful {
        CtorExprView::Stateful("Rc"@ + last_ident(f.spec_ty()))
    } else if coll {
        CtorExprView::Collection
    } else {
        CtorExprView::Bare
    }
}

/// Build `sycamore::prelude::RcSignal<inner>`.
fn rc_signal_shape(inner: TypeShape) -> (r: TypeShape)
    ensures
        r@ == rc_signal_ty(inner@),
{
    let mut args: Vec<GenericArgShape> = Vec::new();
    args.push(GenericArgShape::TypeArg(inner));
    proof {
        lemma_arg_seq_view(args@);
    }
    let mut segs: Vec<PathSegment> = Vec::new();
    segs.push(PathSegment { ident: "sycamore".to_owned(), arguments: PathArgsShape::Empty });
    segs.push(PathSegment { ident: "prelude".to_owned(), arguments: PathArgsShape::Empty });
    segs.push(
        PathSegment {
            ident: "RcSignal".to_owned(),
            arguments: PathArgsShape::AngleBracketed(args),
        },
    );
    let r = TypeShape::Path(segs);
    proof {
        lemma_segs_view(segs@);
        assert(arg_seq_view(args@) =~= seq![ArgView::TypeArg(Box::new(inner@))]);
        assert(segs_view(segs@) =~= rc_signal_ty(inner@)->Path_0);
    }
    r
}

/// Build `sycamore_state::RcCollectionSignal<elem>`.
fn rc_collection_shape(elem: TypeShape) -> (r: TypeShape)
    ensures
        r@ == rc_collection_ty(elem@),
{
    let mut args: Vec<GenericArgShape> = Vec::new();
    args.push(GenericArgShape::TypeArg(elem));
    proof {
        lemma_arg_seq_view(args@);
    }
    let mut segs: Vec<PathSegment> = Vec::new();
    segs.push(PathSegment { ident: "sycamore_state".to_owned(), arguments: PathArgsShape::Empty });
    segs.push(
        PathSegment {
            ident: "RcCollectionSignal".to_owned(),
            arguments: PathArgsShape::AngleBracketed(args),
        },
    );
    let r = TypeShape::Path(segs);
    proof {
        lemma_segs_view(segs@);
        assert(arg_seq_view(args@) =~= seq![ArgView::TypeArg(Box::new(elem@))]);
        assert(segs_view(segs@) =~= rc_collection_ty(elem@)->Path_0);
    }
    r
}

/// The identifier of the last segment of a path type.
fn last_ident_of(ty: &TypeShape) -> (r: String)
    requires
        ty@ matches TypeView::Path(s) && s.len() > 0,
    ensures
        r@ == last_ident(ty@),
{
    match ty {
        TypeShape::Path(segments) => {
            proof {
                lemma_segs_view(segments@);
            }
            segments[segments.len() - 1].ident.clone()
        },
        _ => {
            proof {
                assert(false);
            }
            String::new()
        },
    }
}

impl FieldWrapper {
    /// The owned-shared companion's declaration of this field: the same
    /// name, with the type wrapped per its classification.
    pub fn to_rc_decl(&self) -> (r: Result<FieldDecl, DeriveError>)
        requires
            transform_safe(self),
        ensures
            spec_rc_field_ok(*self) ==> (r matches Ok(fd) && fd@.ident == self.spec_ident()
                && fd@.ty == spec_rc_decl_ty(*self)),
            !spec_rc_field_ok(*self) ==> r == Err::<FieldDecl, DeriveError>(
                spec_rc_field_err(*self),
            ),
    {
        let stateful = self.is_stateful();
        let coll = self.is_collection();
        if stateful && coll {
            match is_collection(self) {
                Some(elem) => {
                    match &elem {
                        TypeShape::Path(segments) => {
                            let renamed = prepend_type("Rc", elem.duplicate());
                            Ok(
                                FieldDecl {
                                    ident: self.ident().clone(),
                                    ty: rc_collection_shape(renamed),
                                },
                            )
                        },
                        _ => Err(DeriveError::MalformedType),
                    }
                },
                None => Err(DeriveError::NotACollection),
            }
        } else if stateful {
            let ty = self.ref_ty();
            match ty {
                TypeShape::Path(segments) => {
                    let renamed = prepend_type("Rc", ty.duplicate());
                    Ok(FieldDecl { ident: self.ident().clone(), ty: rc_signal_shape(renamed) })
                },
                _ => Err(DeriveError::MalformedType),
            }
        } else if coll {
            match is_collection(self) {
                Some(elem) => Ok(
                    FieldDecl { ident: self.ident().clone(), ty: rc_collection_shape(elem) },
                ),
                None => Err(DeriveError::NotACollection),
            }
        } else {
            let ty = self.ref_ty().duplicate();
            Ok(FieldDecl { ident: self.ident().clone(), ty: rc_signal_shape(ty) })
        }
    }

    /// The owned-shared constructor step of this field: how the cell is
    /// filled from the source value.
    pub fn to_rc_ctor(&self) -> (r: Result<CtorExprShape, DeriveError>)
        requires
            transform_safe(self),
        ensures
            spec_rc_field_ok(*self) ==> (r matches Ok(e) && e@ == spec_rc_ctor_expr(*self)),
            !spec_rc_field_ok(*self) ==> r == Err::<CtorExprShape, DeriveError>(
                spec_rc_field_err(*self),
            ),
    {
        let stateful = self.is_stateful();
        let coll = self.is_collection();
        if stateful && coll {
            match is_collection(self) {
                Some(elem) => {
                    match &elem {
                        TypeShape::Path(segments) => Ok(
                            CtorExprShape::StatefulCollection(format_rc_ident(&last_ident_of(&elem))),
                        ),
                        _ => Err(DeriveError::MalformedType),
                    }
                },
                None => Err(DeriveError::NotACollection),
            }
        } else if stateful {
            let ty = self.ref_ty();
            match ty {
                TypeShape::Path(segments) => Ok(
                    CtorExprShape::Stateful(format_rc_ident(&last_ident_of(ty))),
                ),
                _ => Err(DeriveError::MalformedType),
            }
        } else if coll {
            match is_collection(self) {
                Some(elem) => Ok(CtorExprShape::Collection),
                None => Err(DeriveError::NotACollection),
            }
        } else {
            Ok(CtorExprShape::Bare)
        }
    }
}


/// The refusal conditions and the wrapping rules together: what stops
/// this field, if anything.
pub open spec fn rc_field_check(f: FieldWrapper) -> Option<DeriveError> {
    match field_refusal(f) {
        Some(e) => Some(e),
        None => if !spec_rc_field_ok(f) {
            Some(spec_rc_field_err(f))
        } else {
            None
        },
    }
}

/// The declared fields of the companion, or the first error in field
/// order.
pub open spec fn spec_rc_decls(s: Seq<FieldWrapper>) -> Result<Seq<FieldDeclView>, DeriveError>
    decreases s.len(),
{
    if s.len() == 0 {
        Ok(Seq::empty())
    } else {
        match spec_rc_decls(s.drop_last()) {
            Ok(front) => match rc_field_check(s.last()) {
                Some(e) => Err(e),
                None => Ok(
                    front.push(
                        FieldDeclView {
                            ident: (&s.last()).spec_ident(),
                            ty: spec_rc_decl_ty(s.last()),
                        },
                    ),
                ),
            },
            Err(e) => Err(e),
        }
    }
}

/// The constructor steps of the companion, or the first error in field
/// order.
pub open spec fn spec_rc_ctors(s: Seq<FieldWrapper>) -> Result<Seq<CtorFieldView>, DeriveError>
    decreases s.len(),
{
    if s.len() == 0 {
        Ok(Seq::empty())
    } else {
        match spec_rc_ctors(s.drop_last()) {
            Ok(front) => match rc_field_check(s.last()) {
                Some(e) => Err(e),
                None => Ok(
                    front.push(
                        CtorFieldView {
                            ident: (&s.last()).spec_ident(),
                            expr: spec_rc_ctor_expr(s.last()),
                        },
                    ),
                ),
            },
            Err(e) => Err(e),
        }
    }
}

/// A refused field in first position of error stops the whole fold with
/// its own error.
pub proof fn lemma_rc_first_err(s: Seq<FieldWrapper>, i: int)
    requires
        0 <= i < s.len(),
        spec_rc_decls(s.take(i)) is Ok,
        spec_rc_ctors(s.take(i)) is Ok,
        rc_field_check(s[i]) is Some,
    ensures
        spec_rc_decls(s) == Err::<Seq<FieldDeclView>, DeriveError>(rc_field_check(s[i]).unwrap()),
        spec_rc_ctors(s) == Err::<Seq<CtorFieldView>, DeriveError>(rc_field_check(s[i]).unwrap()),
    decreases s.len(),
{
    if i == s.len() - 1 {
        assert(s.drop_last() =~= s.take(i));
        assert(s.last() == s[i]);
    } else {
        assert(s.drop_last().take(i) =~= s.take(i));
        assert(s.drop_last()[i] == s[i]);
        lemma_rc_first_err(s.drop_last(), i);
    }
}


/// The declaration fold and the constructor fold accept and refuse the
/// same field lists, with the same error.
pub proof fn lemma_rc_folds_agree(s: Seq<FieldWrapper>)
    ensures
        spec_rc_decls(s) is Ok <==> spec_rc_ctors(s) is Ok,
        (spec_rc_decls(s) matches Err(e) ==> spec_rc_ctors(s) == Err::<
            Seq<CtorFieldView>,
            DeriveError,
        >(e)),
    decreases s.len(),
{
    if s.len() > 0 {
        lemma_rc_folds_agree(s.drop_last());
    }
}

} // verus!
