//! The data model the derivation works on: a plain declaration of a record
//! or tagged-union type (name, generics, fields or variants, attributes),
//! together with the ghost views the contracts speak about.
//!
//! Every exec shape type has a ghost mirror whose strings are `Seq<char>`
//! and whose vectors are `Seq`, so that equality on views is extensional
//! and the transforms can be pinned down exactly.

use vstd::prelude::*;
use crate::rc_derive::{lemma_rc_first_err, rc_field_check, spec_rc_ctors, spec_rc_decls};
use crate::ref_derive::{lemma_ref_first_err, ref_field_check, spec_ref_ctors, spec_ref_decls};
use crate::utils::{
    check_field, extract_lifetimes, format_rc_ident, format_ref_ident, make_derive_features,
    make_ref_derive_features, spec_derive_features, spec_lifetimes, spec_ref_derive_features,
};

verus! {

// ---------------------------------------------------------------------
// Ghost views
// ---------------------------------------------------------------------
/// Ghost mirror of [`TypeShape`].
#[verifier::ext_equal]
pub ghost enum TypeView {
    Path(Seq<SegView>),
    Array { elem: Box<TypeView>, len: Seq<char> },
    Reference { lifetime: Option<Seq<char>>, elem: Box<TypeView> },
    Other,
}

/// Ghost mirror of [`PathSegment`].
#[verifier::ext_equal]
pub ghost struct SegView {
    pub ident: Seq<char>,
    pub arguments: ArgsView,
}

/// Ghost mirror of [`PathArgsShape`].
#[verifier::ext_equal]
pub ghost enum ArgsView {
    Empty,
    AngleBracketed(Seq<ArgView>),
    Parenthesized,
}

/// Ghost mirror of [`GenericArgShape`].
#[verifier::ext_equal]
pub ghost enum ArgView {
    Lifetime(Seq<char>),
    TypeArg(Box<TypeView>),
    ConstArg(Seq<char>),
}

/// Ghost mirror of [`MetaShape`].
#[verifier::ext_equal]
pub ghost enum MetaView {
    Path(Seq<Seq<char>>),
    List { path: Seq<Seq<char>>, idents: Seq<Seq<char>> },
    NameValue,
}

/// Ghost mirror of [`FieldShape`].
#[verifier::ext_equal]
pub ghost struct FieldView {
    pub ident: Seq<char>,
    pub ty: TypeView,
    pub attrs: Seq<MetaView>,
}

/// Ghost mirror of [`VariantShape`].
#[verifier::ext_equal]
pub ghost struct VariantView {
    pub ident: Seq<char>,
    pub payload: Seq<TypeView>,
    pub attrs: Seq<MetaView>,
}

/// Ghost mirror of [`FieldWrapper`].
#[verifier::ext_equal]
pub ghost enum FieldWrapperView {
    Enum(VariantView),
    Struct(FieldView),
}

/// Ghost mirror of [`GenericParamShape`].
#[verifier::ext_equal]
pub ghost enum GenericParamView {
    Lifetime(Seq<char>),
    TypeParam(Seq<char>),
    ConstParam(Seq<char>),
}

// ---------------------------------------------------------------------
// Exec shapes
// ---------------------------------------------------------------------
/// Which optional capabilities the derived companions should carry.
#[derive(Debug, Clone, Copy, PartialEq, Eq, Structural)]
pub struct FeatureModel {
    pub debug: bool,
    pub clone: bool,
    pub eq: bool,
    pub ord: bool,
}

impl Default for FeatureModel {
    /// All capabilities off.
    fn default() -> (r: FeatureModel)
        ensures
            !r.debug && !r.clone && !r.eq && !r.ord,
    {
        FeatureModel { debug: false, clone: false, eq: false, ord: false }
    }
}

/// One generic argument inside a path segment's angle brackets.
#[derive(Debug, PartialEq, Eq)]
pub enum GenericArgShape {
    Lifetime(String),
    TypeArg(TypeShape),
    ConstArg(String),
}

/// The arguments attached to one path segment.
#[derive(Debug, PartialEq, Eq)]
pub enum PathArgsShape {
    Empty,
    AngleBracketed(Vec<GenericArgShape>),
    Parenthesized,
}

/// One segment of a type path, e.g. the `Vec<String>` in
/// `std::vec::Vec<String>`.
#[derive(Debug, PartialEq, Eq)]
pub struct PathSegment {
    pub ident: String,
    pub arguments: PathArgsShape,
}

/// The shape of a field's type, as far as the derivation needs to read it.
#[derive(Debug, PartialEq, Eq)]
pub enum TypeShape {
    /// A path type; the derivation reads its last segment.
    Path(Vec<PathSegment>),
    /// A fixed-size array `[elem; len]`; the length is kept verbatim.
    Array { elem: Box<TypeShape>, len: String },
    /// A reference `&elem` or `&'lt elem`.
    Reference { lifetime: Option<String>, elem: Box<TypeShape> },
    /// Any other type; the derivation can wrap it but not look inside.
    Other,
}

/// One attribute on a field, variant or declaration, reduced to what the
/// derivation reads: its path and, for list attributes, the identifiers
/// between the parentheses.
#[derive(Debug, PartialEq, Eq)]
pub enum MetaShape {
    Path(Vec<String>),
    List { path: Vec<String>, idents: Vec<String> },
    NameValue,
}

/// One named record field.
#[derive(Debug, PartialEq, Eq)]
pub struct FieldShape {
    pub ident: String,
    pub ty: TypeShape,
    pub attrs: Vec<MetaShape>,
}

/// One tagged-union variant with its payload types.
#[derive(Debug, PartialEq, Eq)]
pub struct VariantShape {
    pub ident: String,
    pub payload: Vec<TypeShape>,
    pub attrs: Vec<MetaShape>,
}

/// A record field or a union variant, treated alike by the derivation.
#[derive(Debug, PartialEq, Eq)]
pub enum FieldWrapper {
    Enum(VariantShape),
    Struct(FieldShape),
}

/// One generic parameter of the source declaration.
#[derive(Debug, PartialEq, Eq)]
pub enum GenericParamShape {
    Lifetime(String),
    TypeParam(String),
    ConstParam(String),
}

/// The generic parameter list of the source declaration.
#[derive(Debug, PartialEq, Eq)]
pub struct GenericsShape {
    pub params: Vec<GenericParamShape>,
}

// ---------------------------------------------------------------------
// View functions
// ---------------------------------------------------------------------
pub open spec fn strings_view(v: Seq<String>) -> Seq<Seq<char>> {
    Seq::new(v.len(), |i: int| v[i]@)
}

pub open spec fn type_view(t: TypeShape) -> TypeView
    decreases t,
{
    match t {
        TypeShape::Path(segments) => {
            proof {
                assert(decreases_to!(t => t->Path_0));
                assert(decreases_to!(t->Path_0 => t->Path_0@));
            }
            TypeView::Path(segs_view(segments@))
        },
        TypeShape::Array { elem, len } => TypeView::Array {
            elem: Box::new(type_view(*elem)),
            len: len@,
        },
        TypeShape::Reference { lifetime, elem } => TypeView::Reference {
            lifetime: match lifetime {
                Some(l) => Some(l@),
                None => None,
            },
            elem: Box::new(type_view(*elem)),
        },
        TypeShape::Other => TypeView::Other,
    }
}

pub open spec fn segs_view(v: Seq<PathSegment>) -> Seq<SegView>
    decreases v,
{
    if v.len() == 0 {
        Seq::empty()
    } else {
        proof {
            assert(decreases_to!(v => v[v.len() - 1]));
            assert(decreases_to!(v => v.subrange(0, v.len() - 1)));
        }
        segs_view(v.subrange(0, v.len() - 1)).push(seg_view(v[v.len() - 1]))
    }
}

pub open spec fn seg_view(s: PathSegment) -> SegView
    decreases s,
{
    SegView { ident: s.ident@, arguments: args_view(s.arguments) }
}

pub open spec fn args_view(a: PathArgsShape) -> ArgsView
    decreases a,
{
    match a {
        PathArgsShape::Empty => ArgsView::Empty,
        PathArgsShape::AngleBracketed(args) => {
            proof {
                assert(decreases_to!(a => a->AngleBracketed_0));
                assert(decreases_to!(a->AngleBracketed_0 => a->AngleBracketed_0@));
            }
            ArgsView::AngleBracketed(arg_seq_view(args@))
        },
        PathArgsShape::Parenthesized => ArgsView::Parenthesized,
    }
}

pub open spec fn arg_seq_view(v: Seq<GenericArgShape>) -> Seq<ArgView>
    decreases v,
{
    if v.len() == 0 {
        Seq::empty()
    } else {
        proof {
            assert(decreases_to!(v => v[v.len() - 1]));
            assert(decreases_to!(v => v.subrange(0, v.len() - 1)));
        }
        arg_seq_view(v.subrange(0, v.len() - 1)).push(arg_view(v[v.len() - 1]))
    }
}

pub open spec fn arg_view(a: GenericArgShape) -> ArgView
    decreases a,
{
    match a {
        GenericArgShape::Lifetime(l) => ArgView::Lifetime(l@),
        GenericArgShape::TypeArg(t) => {
            proof {
                assert(decreases_to!(a => a->TypeArg_0));
            }
            ArgView::TypeArg(Box::new(type_view(t)))
        },
        GenericArgShape::ConstArg(c) => ArgView::ConstArg(c@),
    }
}

pub proof fn lemma_segs_view(v: Seq<PathSegment>)
    ensures
        segs_view(v).len() == v.len(),
        forall|i: int| 0 <= i < v.len() ==> segs_view(v)[i] == seg_view(v[i]),
    decreases v.len(),
{
    if v.len() > 0 {
        let front = v.subrange(0, v.len() - 1);
        lemma_segs_view(front);
        assert forall|i: int| 0 <= i < v.len() implies segs_view(v)[i] == seg_view(v[i]) by {
            if i < v.len() - 1 {
                assert(front[i] == v[i]);
            }
        }
    }
}

pub proof fn lemma_arg_seq_view(v: Seq<GenericArgShape>)
    ensures
        arg_seq_view(v).len() == v.len(),
        forall|i: int| 0 <= i < v.len() ==> arg_seq_view(v)[i] == arg_view(v[i]),
    decreases v.len(),
{
    if v.len() > 0 {
        let front = v.subrange(0, v.len() - 1);
        lemma_arg_seq_view(front);
        assert forall|i: int| 0 <= i < v.len() implies arg_seq_view(v)[i] == arg_view(v[i]) by {
            if i < v.len() - 1 {
                assert(front[i] == v[i]);
            }
        }
    }
}

pub open spec fn meta_view(m: MetaShape) -> MetaView {
    match m {
        MetaShape::Path(path) => MetaView::Path(strings_view(path@)),
        MetaShape::List { path, idents } => MetaView::List {
            path: strings_view(path@),
            idents: strings_view(idents@),
        },
        MetaShape::NameValue => MetaView::NameValue,
    }
}

pub open spec fn metas_view(v: Seq<MetaShape>) -> Seq<MetaView> {
    Seq::new(v.len(), |i: int| meta_view(v[i]))
}

pub open spec fn types_view(v: Seq<TypeShape>) -> Seq<TypeView> {
    Seq::new(v.len(), |i: int| type_view(v[i]))
}

impl View for TypeShape {
    type V = TypeView;

    open spec fn view(&self) -> TypeView {
        type_view(*self)
    }
}

impl View for PathSegment {
    type V = SegView;

    open spec fn view(&self) -> SegView {
        seg_view(*self)
    }
}

impl View for PathArgsShape {
    type V = ArgsView;

    open spec fn view(&self) -> ArgsView {
        args_view(*self)
    }
}

impl View for GenericArgShape {
    type V = ArgView;

    open spec fn view(&self) -> ArgView {
        arg_view(*self)
    }
}

impl View for MetaShape {
    type V = MetaView;

    open spec fn view(&self) -> MetaView {
        meta_view(*self)
    }
}

impl View for FieldShape {
    type V = FieldView;

    open spec fn view(&self) -> FieldView {
        FieldView { ident: self.ident@, ty: type_view(self.ty), attrs: metas_view(self.attrs@) }
    }
}

impl View for VariantShape {
    type V = VariantView;

    open spec fn view(&self) -> VariantView {
        VariantView {
            ident: self.ident@,
            payload: types_view(self.payload@),
            attrs: metas_view(self.attrs@),
        }
    }
}

impl View for FieldWrapper {
    type V = FieldWrapperView;

    open spec fn view(&self) -> FieldWrapperView {
        match self {
            FieldWrapper::Enum(v) => FieldWrapperView::Enum(v@),
            FieldWrapper::Struct(f) => FieldWrapperView::Struct(f@),
        }
    }
}

impl View for GenericParamShape {
    type V = GenericParamView;

    open spec fn view(&self) -> GenericParamView {
        match self {
            GenericParamShape::Lifetime(l) => GenericParamView::Lifetime(l@),
            GenericParamShape::TypeParam(t) => GenericParamView::TypeParam(t@),
            GenericParamShape::ConstParam(c) => GenericParamView::ConstParam(c@),
        }
    }
}

pub open spec fn params_view(v: Seq<GenericParamShape>) -> Seq<GenericParamView> {
    Seq::new(v.len(), |i: int| v[i]@)
}

impl View for GenericsShape {
    type V = Seq<GenericParamView>;

    open spec fn view(&self) -> Seq<GenericParamView> {
        params_view(self.params@)
    }
}

// ---------------------------------------------------------------------
// Copies
// ---------------------------------------------------------------------
fn duplicate_args(args: &Vec<GenericArgShape>) -> (r: Vec<GenericArgShape>)
    ensures
        arg_seq_view(r@) == arg_seq_view(args@),
    decreases args,
{
    let mut copy: Vec<GenericArgShape> = Vec::new();
    let mut i: usize = 0;
    while i < args.len()
        invariant
            i <= args.len(),
            copy@.len() == i,
            forall|j: int| 0 <= j < i ==> arg_view(#[trigger] copy@[j]) == arg_view(args@[j]),
        decreases args@.len() - i,
    {
        proof {
            assert(decreases_to!(*args => args@));
            assert(decreases_to!(args@ => args@[i as int]));
        }
        copy.push(args[i].duplicate());
        i += 1;
    }
    proof {
        lemma_arg_seq_view(copy@);
        lemma_arg_seq_view(args@);
        assert(arg_seq_view(copy@) =~= arg_seq_view(args@));
    }
    copy
}

fn duplicate_segments(segments: &Vec<PathSegment>) -> (r: Vec<PathSegment>)
    ensures
        segs_view(r@) == segs_view(segments@),
    decreases segments,
{
    let mut copy: Vec<PathSegment> = Vec::new();
    let mut i: usize = 0;
    while i < segments.len()
        invariant
            i <= segments.len(),
            copy@.len() == i,
            forall|j: int| 0 <= j < i ==> seg_view(#[trigger] copy@[j]) == seg_view(segments@[j]),
        decreases segments@.len() - i,
    {
        proof {
            assert(decreases_to!(*segments => segments@));
            assert(decreases_to!(segments@ => segments@[i as int]));
        }
        copy.push(segments[i].duplicate());
        i += 1;
    }
    proof {
        lemma_segs_view(copy@);
        lemma_segs_view(segments@);
        assert(segs_view(copy@) =~= segs_view(segments@));
    }
    copy
}

impl GenericArgShape {
    /// A copy with the same view.
    pub fn duplicate(&self) -> (r: GenericArgShape)
        ensures
            r@ == self@,
        decreases self,
    {
        match self {
            GenericArgShape::Lifetime(s) => GenericArgShape::Lifetime(s.clone()),
            GenericArgShape::TypeArg(t) => GenericArgShape::TypeArg(t.duplicate()),
            GenericArgShape::ConstArg(s) => GenericArgShape::ConstArg(s.clone()),
        }
    }
}

impl PathArgsShape {
    /// A copy with the same view.
    pub fn duplicate(&self) -> (r: PathArgsShape)
        ensures
            r@ == self@,
        decreases self,
    {
        match self {
            PathArgsShape::Empty => PathArgsShape::Empty,
            PathArgsShape::AngleBracketed(args) => PathArgsShape::AngleBracketed(
                duplicate_args(args),
            ),
            PathArgsShape::Parenthesized => PathArgsShape::Parenthesized,
        }
    }
}

impl PathSegment {
    /// A copy with the same view.
    pub fn duplicate(&self) -> (r: PathSegment)
        ensures
            r@ == self@,
        decreases self,
    {
        PathSegment { ident: self.ident.clone(), arguments: self.arguments.duplicate() }
    }
}

impl TypeShape {
    /// A copy with the same view.
    pub fn duplicate(&self) -> (r: TypeShape)
        ensures
            r@ == self@,
        decreases self,
    {
        match self {
            TypeShape::Path(segments) => TypeShape::Path(duplicate_segments(segments)),
            TypeShape::Array { elem, len } => TypeShape::Array {
                elem: Box::new(elem.duplicate()),
                len: len.clone(),
            },
            TypeShape::Reference { lifetime, elem } => TypeShape::Reference {
                lifetime: match lifetime {
                    Some(l) => Some(l.clone()),
                    None => None,
                },
                elem: Box::new(elem.duplicate()),
            },
            TypeShape::Other => TypeShape::Other,
        }
    }
}


// ---------------------------------------------------------------------
// Attribute matching and field access
// ---------------------------------------------------------------------
/// Whether one attribute answers to `ident` the way the wrapping rules
/// look it up: by the last segment of its path.
pub open spec fn meta_matches(m: MetaView, ident: Seq<char>) -> bool {
    match m {
        MetaView::Path(segs) => segs.len() > 0 && segs.last() == ident,
        MetaView::List { path, idents } => path.len() > 0 && path.last() == ident,
        MetaView::NameValue => false,
    }
}

/// Whether some attribute in the list answers to `ident`.
pub open spec fn spec_has_attribute(attrs: Seq<MetaView>, ident: Seq<char>) -> bool {
    exists|i: int| 0 <= i < attrs.len() && meta_matches(#[trigger] attrs[i], ident)
}

impl FieldWrapper {
    /// The field's or variant's name.
    pub open spec fn spec_ident(&self) -> Seq<char> {
        match self@ {
            FieldWrapperView::Enum(v) => v.ident,
            FieldWrapperView::Struct(f) => f.ident,
        }
    }

    /// The attributes attached to the field or variant.
    pub open spec fn spec_attrs(&self) -> Seq<MetaView> {
        match self@ {
            FieldWrapperView::Enum(v) => v.attrs,
            FieldWrapperView::Struct(f) => f.attrs,
        }
    }

    /// Whether a payload type can be read: always for a record field, and
    /// only when the variant carries at least one payload for a union case.
    pub open spec fn spec_has_payload(&self) -> bool {
        match self@ {
            FieldWrapperView::Enum(v) => v.payload.len() > 0,
            FieldWrapperView::Struct(f) => true,
        }
    }

    /// The type the wrapping rules transform: the field's type, or the
    /// variant's first payload type.
    pub open spec fn spec_ty(&self) -> TypeView {
        match self@ {
            FieldWrapperView::Enum(v) => v.payload[0],
            FieldWrapperView::Struct(f) => f.ty,
        }
    }

    /// Whether the field is marked as a collection.
    pub open spec fn spec_is_collection(&self) -> bool {
        spec_has_attribute(self.spec_attrs(), "collection"@)
    }

    /// Whether the field is marked as stateful.
    pub open spec fn spec_is_stateful(&self) -> bool {
        spec_has_attribute(self.spec_attrs(), "state"@)
    }

    /// The field's or variant's name.
    pub fn ident(&self) -> (r: &String)
        ensures
            r@ == self.spec_ident(),
    {
        match self {
            FieldWrapper::Enum(v) => &v.ident,
            FieldWrapper::Struct(f) => &f.ident,
        }
    }

    /// The type the wrapping rules transform.
    pub fn ref_ty(&self) -> (r: &TypeShape)
        requires
            self.spec_has_payload(),
        ensures
            r@ == self.spec_ty(),
    {
        match self {
            FieldWrapper::Enum(v) => &v.payload[0],
            FieldWrapper::Struct(f) => &f.ty,
        }
    }

    /// The attributes attached to the field or variant.
    pub fn attrs(&self) -> (r: &Vec<MetaShape>)
        ensures
            metas_view(r@) == self.spec_attrs(),
    {
        match self {
            FieldWrapper::Enum(v) => &v.attrs,
            FieldWrapper::Struct(f) => &f.attrs,
        }
    }

    /// Whether some attribute of the field answers to `ident` by the last
    /// segment of its path.
    pub fn has_attribute(&self, ident: &String) -> (r: bool)
        ensures
            r == spec_has_attribute(self.spec_attrs(), ident@),
    {
        let attrs = self.attrs();
        let ghost attrs_v = self.spec_attrs();
        let n = attrs.len();
        let mut i: usize = 0;
        while i < n
            invariant
                n == attrs@.len(),
                i <= n,
                attrs_v == metas_view(attrs@),
                attrs_v == self.spec_attrs(),
                forall|j: int| 0 <= j < i ==> !meta_matches(#[trigger] attrs_v[j], ident@),
            decreases n - i,
        {
            let matched: bool = match &attrs[i] {
                MetaShape::Path(segs) => {
                    proof {
                        if segs@.len() > 0 {
                            assert(strings_view(segs@)[segs@.len() - 1] == segs@[segs@.len()
                                - 1]@);
                        }
                    }
                    segs.len() > 0 && segs[segs.len() - 1] == *ident
                },
                MetaShape::List { path, idents } => {
                    proof {
                        if path@.len() > 0 {
                            assert(strings_view(path@)[path@.len() - 1] == path@[path@.len()
                                - 1]@);
                        }
                    }
                    path.len() > 0 && path[path.len() - 1] == *ident
                },
                MetaShape::NameValue => false,
            };
            proof {
                assert(attrs_v[i as int] == meta_view(attrs@[i as int]));
                assert(matched == meta_matches(attrs_v[i as int], ident@));
            }
            if matched {
                proof {
                    assert(0 <= i < self.spec_attrs().len() && meta_matches(
                        self.spec_attrs()[i as int],
                        ident@,
                    ));
                }
                return true;
            }
            i += 1;
        }
        false
    }

    /// Whether the field is marked as a collection.
    pub fn is_collection(&self) -> (r: bool)
        ensures
            r == self.spec_is_collection(),
    {
        self.has_attribute(&crate::utils::collection_ident())
    }

    /// Whether the field is marked as stateful.
    pub fn is_stateful(&self) -> (r: bool)
        ensures
            r == self.spec_is_stateful(),
    {
        self.has_attribute(&crate::utils::stateful_ident())
    }
}


// ---------------------------------------------------------------------
// Derivation outputs
// ---------------------------------------------------------------------
/// Why a derivation was refused; every case aborts the whole derivation
/// for the model it occurred in.
#[derive(Debug, Clone, Copy, PartialEq, Eq, Structural)]
pub enum DeriveError {
    /// A field carries the collection marker but its type is not a
    /// single-type-parameter container or a fixed-size array.
    NotACollection,
    /// A stateful field's type is not a plain path type, so no companion
    /// can be named for it.
    MalformedType,
    /// A union variant does not carry exactly one payload.
    VariantArity,
    /// The declaration is not a record or a tagged union.
    UnsupportedDeclaration,
}

/// Ghost mirror of [`FieldDecl`].
#[verifier::ext_equal]
pub ghost struct FieldDeclView {
    pub ident: Seq<char>,
    pub ty: TypeView,
}

/// One field or variant of a companion declaration: its name and its
/// transformed type. Attributes are not carried over.
#[derive(Debug, PartialEq, Eq)]
pub struct FieldDecl {
    pub ident: String,
    pub ty: TypeShape,
}

impl View for FieldDecl {
    type V = FieldDeclView;

    open spec fn view(&self) -> FieldDeclView {
        FieldDeclView { ident: self.ident@, ty: self.ty@ }
    }
}

pub open spec fn field_decls_view(v: Seq<FieldDecl>) -> Seq<FieldDeclView> {
    Seq::new(v.len(), |i: int| v[i]@)
}

/// Ghost mirror of [`DeclShape`].
#[verifier::ext_equal]
pub ghost struct DeclView {
    pub ident: Seq<char>,
    pub generics: Seq<GenericParamView>,
    pub derives: Seq<Seq<char>>,
    pub is_enum: bool,
    pub fields: Seq<FieldDeclView>,
}

/// The declaration of one companion type: name, generics, derive list
/// and the transformed fields or variants.
#[derive(Debug, PartialEq, Eq)]
pub struct DeclShape {
    pub ident: String,
    pub generics: GenericsShape,
    pub derives: Vec<String>,
    pub is_enum: bool,
    pub fields: Vec<FieldDecl>,
}

impl View for DeclShape {
    type V = DeclView;

    open spec fn view(&self) -> DeclView {
        DeclView {
            ident: self.ident@,
            generics: self.generics@,
            derives: strings_view(self.derives@),
            is_enum: self.is_enum,
            fields: field_decls_view(self.fields@),
        }
    }
}

/// Ghost mirror of [`CtorExprShape`].
#[verifier::ext_equal]
pub ghost enum CtorExprView {
    /// Wrap the source value in a fresh cell.
    Bare,
    /// Construct the named companion from the source value, then wrap it.
    Stateful(Seq<char>),
    /// Build the collection cell directly from the source sequence.
    Collection,
    /// Map each element through the named companion's constructor, then
    /// build the collection cell.
    StatefulCollection(Seq<char>),
}

/// How a companion constructor fills one field or variant payload from
/// the corresponding source value.
#[derive(Debug, PartialEq, Eq)]
pub enum CtorExprShape {
    Bare,
    Stateful(String),
    Collection,
    StatefulCollection(String),
}

impl View for CtorExprShape {
    type V = CtorExprView;

    open spec fn view(&self) -> CtorExprView {
        match self {
            CtorExprShape::Bare => CtorExprView::Bare,
            CtorExprShape::Stateful(s) => CtorExprView::Stateful(s@),
            CtorExprShape::Collection => CtorExprView::Collection,
            CtorExprShape::StatefulCollection(s) => CtorExprView::StatefulCollection(s@),
        }
    }
}

/// Ghost mirror of [`CtorField`].
#[verifier::ext_equal]
pub ghost struct CtorFieldView {
    pub ident: Seq<char>,
    pub expr: CtorExprView,
}

/// One step of a companion constructor.
#[derive(Debug, PartialEq, Eq)]
pub struct CtorField {
    pub ident: String,
    pub expr: CtorExprShape,
}

impl View for CtorField {
    type V = CtorFieldView;

    open spec fn view(&self) -> CtorFieldView {
        CtorFieldView { ident: self.ident@, expr: self.expr@ }
    }
}

pub open spec fn ctor_fields_view(v: Seq<CtorField>) -> Seq<CtorFieldView> {
    Seq::new(v.len(), |i: int| v[i]@)
}

/// Ghost mirror of [`CtorShape`].
#[verifier::ext_equal]
pub ghost struct CtorView {
    pub companion: Seq<char>,
    pub source: Seq<char>,
    pub generics: Seq<GenericParamView>,
    pub source_generics: Seq<GenericParamView>,
    pub ctor_lifetime: Option<Seq<char>>,
    pub bounds: Seq<Seq<char>>,
    pub is_enum: bool,
    pub fields: Seq<CtorFieldView>,
}

/// The constructor of one companion type: which companion it builds,
/// from which source type, under which generics, and how each field is
/// filled. A borrowed-scoped constructor additionally names the lifetime
/// of the construction episode and the source lifetimes that must
/// outlive it.
#[derive(Debug, PartialEq, Eq)]
pub struct CtorShape {
    pub companion: String,
    pub source: String,
    pub generics: GenericsShape,
    pub source_generics: GenericsShape,
    pub ctor_lifetime: Option<String>,
    pub bounds: Vec<String>,
    pub is_enum: bool,
    pub fields: Vec<CtorField>,
}

impl View for CtorShape {
    type V = CtorView;

    open spec fn view(&self) -> CtorView {
        CtorView {
            companion: self.companion@,
            source: self.source@,
            generics: self.generics@,
            source_generics: self.source_generics@,
            ctor_lifetime: match &self.ctor_lifetime {
                Some(l) => Some(l@),
                None => None,
            },
            bounds: strings_view(self.bounds@),
            is_enum: self.is_enum,
            fields: ctor_fields_view(self.fields@),
        }
    }
}

// ---------------------------------------------------------------------
// Lifetime insertion
// ---------------------------------------------------------------------
/// The arguments of a path segment after the given lifetime is threaded
/// in front of them; parenthesized arguments cannot take one.
pub open spec fn spec_insert_lifetime(a: ArgsView, lifetime: Seq<char>) -> ArgsView {
    match a {
        ArgsView::Empty => ArgsView::AngleBracketed(seq![ArgView::Lifetime(lifetime)]),
        ArgsView::AngleBracketed(args) => ArgsView::AngleBracketed(
            seq![ArgView::Lifetime(lifetime)] + args,
        ),
        ArgsView::Parenthesized => a,
    }
}

/// Thread `lifetime` in front of the generic arguments of `last`.
pub fn insert_lifetime_into_generics(last: &mut PathSegment, lifetime: String)
    requires
        !(old(last)@.arguments is Parenthesized),
    ensures
        final(last)@.ident == old(last)@.ident,
        final(last)@.arguments == spec_insert_lifetime(old(last)@.arguments, lifetime@),
{
    let mut taken = PathArgsShape::Empty;
    std::mem::swap(&mut taken, &mut last.arguments);
    let ghost old_args = taken;
    match taken {
        PathArgsShape::Empty => {
            let mut args: Vec<GenericArgShape> = Vec::new();
            args.push(GenericArgShape::Lifetime(lifetime));
            last.arguments = PathArgsShape::AngleBracketed(args);
            proof {
                assert(arg_seq_view(args@) =~= seq![ArgView::Lifetime(lifetime@)]);
            }
        },
        PathArgsShape::AngleBracketed(args) => {
            let ghost before = args@;
            let mut args = args;
            args.insert(0, GenericArgShape::Lifetime(lifetime));
            last.arguments = PathArgsShape::AngleBracketed(args);
            proof {
                lemma_arg_seq_view(args@);
                lemma_arg_seq_view(before);
                assert(arg_seq_view(args@) =~= seq![ArgView::Lifetime(lifetime@)] + arg_seq_view(
                    before,
                ));
            }
        },
        PathArgsShape::Parenthesized => {
            last.arguments = PathArgsShape::Parenthesized;
        },
    }
}


// ---------------------------------------------------------------------
// The deriver
// ---------------------------------------------------------------------
impl GenericParamShape {
    /// A copy with the same view.
    pub fn duplicate(&self) -> (r: GenericParamShape)
        ensures
            r@ == self@,
    {
        match self {
            GenericParamShape::Lifetime(l) => GenericParamShape::Lifetime(l.clone()),
            GenericParamShape::TypeParam(t) => GenericParamShape::TypeParam(t.clone()),
            GenericParamShape::ConstParam(c) => GenericParamShape::ConstParam(c.clone()),
        }
    }
}

impl GenericsShape {
    /// A copy with the same view.
    pub fn duplicate(&self) -> (r: GenericsShape)
        ensures
            r@ == self@,
    {
        let mut params: Vec<GenericParamShape> = Vec::new();
        let n = self.params.len();
        let mut i: usize = 0;
        while i < n
            invariant
                n == self.params@.len(),
                i <= n,
                params@.len() == i,
                forall|j: int| 0 <= j < i ==> (#[trigger] params@[j])@ == self.params@[j]@,
            decreases n - i,
        {
            params.push(self.params[i].duplicate());
            i += 1;
        }
        let r = GenericsShape { params };
        proof {
            assert(r@ =~= self@);
        }
        r
    }
}

/// Marker for a deriver built from a record declaration.
pub struct StructDecl;

/// Marker for a deriver built from a tagged-union declaration.
pub struct EnumDecl;

/// The derivation state for one model declaration: its name, generics,
/// fields or variants, and the requested companion capabilities.
pub struct Deriver<T> {
    pub ident: String,
    pub generics: GenericsShape,
    pub fields: Vec<FieldWrapper>,
    pub features: FeatureModel,
    pub marker: core::marker::PhantomData<T>,
}

impl<T> Deriver<T> {
    /// The source declaration's generics.
    pub fn generics(&self) -> (r: GenericsShape)
        ensures
            r@ == self.generics@,
    {
        self.generics.duplicate()
    }

    /// The source generics with the given parameters prepended.
    pub fn make_generic(&self, add: Vec<GenericParamShape>) -> (r: GenericsShape)
        ensures
            r@ == params_view(add@) + self.generics@,
    {
        let mut params = add;
        let ghost added = params@;
        let mut rest = self.generics.duplicate();
        params.append(&mut rest.params);
        let r = GenericsShape { params };
        proof {
            assert(r@ =~= params_view(added) + self.generics@);
        }
        r
    }

    /// The owned-shared companion's generics: the source generics
    /// unchanged.
    pub fn make_rc_generic(&self) -> (r: GenericsShape)
        ensures
            r@ == self.generics@,
    {
        let r = self.make_generic(Vec::new());
        proof {
            assert(params_view(Seq::<GenericParamShape>::empty())
                =~= Seq::<GenericParamView>::empty());
            assert(r@ =~= self.generics@);
        }
        r
    }

    /// The borrowed-scoped companion's generics: the bounding lifetime,
    /// then the source generics.
    pub fn make_ref_generic(&self) -> (r: GenericsShape)
        ensures
            r@ == seq![GenericParamView::Lifetime("stateful"@)] + self.generics@,
    {
        let mut add: Vec<GenericParamShape> = Vec::new();
        add.push(GenericParamShape::Lifetime(crate::utils::s_lifetime()));
        let ghost added = add@;
        let r = self.make_generic(add);
        proof {
            assert(params_view(added) =~= seq![GenericParamView::Lifetime("stateful"@)]);
        }
        r
    }
}

impl Deriver<EnumDecl> {
    /// Start a derivation for a tagged-union declaration.
    pub fn new_enum(
        ident: String,
        generics: GenericsShape,
        variants: Vec<VariantShape>,
        features: FeatureModel,
    ) -> (r: Deriver<EnumDecl>)
        ensures
            r.ident@ == ident@,
            r.generics@ == generics@,
            r.features == features,
            r.fields@.len() == variants@.len(),
            forall|i: int|
                0 <= i < variants@.len() ==> (#[trigger] r.fields@[i]) == FieldWrapper::Enum(
                    variants@[i],
                ),
    {
        let mut variants = variants;
        let ghost all = variants@;
        let total = variants.len();
        let mut fields: Vec<FieldWrapper> = Vec::new();
        while variants.len() > 0
            invariant
                fields@.len() + variants@.len() == all.len(),
                all.skip(fields@.len() as int) == variants@,
                forall|i: int|
                    0 <= i < fields@.len() ==> (#[trigger] fields@[i]) == FieldWrapper::Enum(
                        all[i],
                    ),
            decreases variants.len(),
        {
            let ghost k = fields@.len();
            let v = variants.remove(0);
            proof {
                assert(all.skip(k as int)[0] == v);
                assert(all[k as int] == v);
                assert(all.skip(k as int).skip(1) =~= all.skip(k as int + 1));
            }
            fields.push(FieldWrapper::Enum(v));
        }
        Deriver {
            ident,
            generics,
            fields,
            features,
            marker: core::marker::PhantomData,
        }
    }
}

impl Deriver<StructDecl> {
    /// Start a derivation for a record declaration.
    pub fn new_struct(
        ident: String,
        generics: GenericsShape,
        fields: Vec<FieldShape>,
        features: FeatureModel,
    ) -> (r: Deriver<StructDecl>)
        ensures
            r.ident@ == ident@,
            r.generics@ == generics@,
            r.features == features,
            r.fields@.len() == fields@.len(),
            forall|i: int|
                0 <= i < fields@.len() ==> (#[trigger] r.fields@[i]) == FieldWrapper::Struct(
                    fields@[i],
                ),
    {
        let mut fields = fields;
        let ghost all = fields@;
        let mut wrapped: Vec<FieldWrapper> = Vec::new();
        while fields.len() > 0
            invariant
                wrapped@.len() + fields@.len() == all.len(),
                all.skip(wrapped@.len() as int) == fields@,
                forall|i: int|
                    0 <= i < wrapped@.len() ==> (#[trigger] wrapped@[i]) == FieldWrapper::Struct(
                        all[i],
                    ),
            decreases fields.len(),
        {
            let ghost k = wrapped@.len();
            let f = fields.remove(0);
            proof {
                assert(all.skip(k as int)[0] == f);
                assert(all[k as int] == f);
                assert(all.skip(k as int).skip(1) =~= all.skip(k as int + 1));
            }
            wrapped.push(FieldWrapper::Struct(f));
        }
        Deriver {
            ident,
            generics,
            fields: wrapped,
            features,
            marker: core::marker::PhantomData,
        }
    }
}


impl<T> Deriver<T> {
    /// The transformed fields of the owned-shared companion declaration.
    fn rc_decl_fields(&self) -> (r: Result<Vec<FieldDecl>, DeriveError>)
        ensures
            match r {
                Ok(v) => spec_rc_decls(self.fields@) == Ok::<Seq<FieldDeclView>, DeriveError>(
                    field_decls_view(v@),
                ),
                Err(e) => spec_rc_decls(self.fields@) == Err::<Seq<FieldDeclView>, DeriveError>(e),
            },
    {
        let n = self.fields.len();
        let ghost s = self.fields@;
        let mut out: Vec<FieldDecl> = Vec::new();
        proof {
            assert(s.take(0) =~= Seq::<FieldWrapper>::empty());
            assert(field_decls_view(out@) =~= Seq::<FieldDeclView>::empty());
        }
        let mut i: usize = 0;
        while i < n
            invariant
                n == self.fields@.len(),
                i <= n,
                s == self.fields@,
                spec_rc_decls(s.take(i as int)) == Ok::<Seq<FieldDeclView>, DeriveError>(
                    field_decls_view(out@),
                ),
                spec_rc_ctors(s.take(i as int)) is Ok,
            decreases n - i,
        {
            let f = &self.fields[i];
            if let Some(e) = check_field(f) {
                proof {
                    assert(rc_field_check(s[i as int]) == Some(e));
                    lemma_rc_first_err(s, i as int);
                }
                return Err(e);
            }
            match f.to_rc_decl() {
                Ok(fd) => {
                    let ghost out0 = out@;
                    out.push(fd);
                    proof {
                        assert(field_decls_view(out@) =~= field_decls_view(out0).push(fd@));
                        assert(s.take(i + 1).drop_last() =~= s.take(i as int));
                        assert(s.take(i + 1).last() == s[i as int]);
                    }
                },
                Err(e) => {
                    proof {
                        assert(rc_field_check(s[i as int]) == Some(e));
                        lemma_rc_first_err(s, i as int);
                    }
                    return Err(e);
                },
            }
            i += 1;
        }
        proof {
            assert(s.take(n as int) =~= s);
        }
        Ok(out)
    }

    /// The constructor steps of the owned-shared companion.
    fn rc_ctor_fields(&self) -> (r: Result<Vec<CtorField>, DeriveError>)
        ensures
            match r {
                Ok(v) => spec_rc_ctors(self.fields@) == Ok::<Seq<CtorFieldView>, DeriveError>(
                    ctor_fields_view(v@),
                ),
                Err(e) => spec_rc_ctors(self.fields@) == Err::<Seq<CtorFieldView>, DeriveError>(e),
            },
    {
        let n = self.fields.len();
        let ghost s = self.fields@;
        let mut out: Vec<CtorField> = Vec::new();
        proof {
            assert(s.take(0) =~= Seq::<FieldWrapper>::empty());
            assert(ctor_fields_view(out@) =~= Seq::<CtorFieldView>::empty());
        }
        let mut i: usize = 0;
        while i < n
            invariant
                n == self.fields@.len(),
                i <= n,
                s == self.fields@,
                spec_rc_ctors(s.take(i as int)) == Ok::<Seq<CtorFieldView>, DeriveError>(
                    ctor_fields_view(out@),
                ),
                spec_rc_decls(s.take(i as int)) is Ok,
            decreases n - i,
        {
            let f = &self.fields[i];
            if let Some(e) = check_field(f) {
                proof {
                    assert(rc_field_check(s[i as int]) == Some(e));
                    lemma_rc_first_err(s, i as int);
                }
                return Err(e);
            }
            match f.to_rc_ctor() {
                Ok(expr) => {
                    let ghost out0 = out@;
                    out.push(CtorField { ident: f.ident().clone(), expr });
                    proof {
                        assert(ctor_fields_view(out@) =~= ctor_fields_view(out0).push(
                            out@.last()@,
                        ));
                        assert(s.take(i + 1).drop_last() =~= s.take(i as int));
                        assert(s.take(i + 1).last() == s[i as int]);
                    }
                },
                Err(e) => {
                    proof {
                        assert(rc_field_check(s[i as int]) == Some(e));
                        lemma_rc_first_err(s, i as int);
                    }
                    return Err(e);
                },
            }
            i += 1;
        }
        proof {
            assert(s.take(n as int) =~= s);
        }
        Ok(out)
    }

    /// The transformed fields of the borrowed-scoped companion
    /// declaration.
    fn ref_decl_fields(&self) -> (r: Result<Vec<FieldDecl>, DeriveError>)
        ensures
            match r {
                Ok(v) => spec_ref_decls(self.fields@) == Ok::<Seq<FieldDeclView>, DeriveError>(
                    field_decls_view(v@),
                ),
                Err(e) => spec_ref_decls(self.fields@) == Err::<Seq<FieldDeclView>, DeriveError>(
                    e,
                ),
            },
    {
        let n = self.fields.len();
        let ghost s = self.fields@;
        let mut out: Vec<FieldDecl> = Vec::new();
        proof {
            assert(s.take(0) =~= Seq::<FieldWrapper>::empty());
            assert(field_decls_view(out@) =~= Seq::<FieldDeclView>::empty());
        }
        let mut i: usize = 0;
        while i < n
            invariant
                n == self.fields@.len(),
                i <= n,
                s == self.fields@,
                spec_ref_decls(s.take(i as int)) == Ok::<Seq<FieldDeclView>, DeriveError>(
                    field_decls_view(out@),
                ),
                spec_ref_ctors(s.take(i as int)) is Ok,
            decreases n - i,
        {
            let f = &self.fields[i];
            if let Some(e) = check_field(f) {
                proof {
                    assert(ref_field_check(s[i as int]) == Some(e));
                    lemma_ref_first_err(s, i as int);
                }
                return Err(e);
            }
            match f.to_ref_decl() {
                Ok(fd) => {
                    let ghost out0 = out@;
                    out.push(fd);
                    proof {
                        assert(field_decls_view(out@) =~= field_decls_view(out0).push(fd@));
                        assert(s.take(i + 1).drop_last() =~= s.take(i as int));
                        assert(s.take(i + 1).last() == s[i as int]);
                    }
                },
                Err(e) => {
                    proof {
                        assert(ref_field_check(s[i as int]) == Some(e));
                        lemma_ref_first_err(s, i as int);
                    }
                    return Err(e);
                },
            }
            i += 1;
        }
        proof {
            assert(s.take(n as int) =~= s);
        }
        Ok(out)
    }

    /// The constructor steps of the borrowed-scoped companion.
    fn ref_ctor_fields(&self) -> (r: Result<Vec<CtorField>, DeriveError>)
        ensures
            match r {
                Ok(v) => spec_ref_ctors(self.fields@) == Ok::<Seq<CtorFieldView>, DeriveError>(
                    ctor_fields_view(v@),
                ),
                Err(e) => spec_ref_ctors(self.fields@) == Err::<Seq<CtorFieldView>, DeriveError>(
                    e,
                ),
            },
    {
        let n = self.fields.len();
        let ghost s = self.fields@;
        let mut out: Vec<CtorField> = Vec::new();
        proof {
            assert(s.take(0) =~= Seq::<FieldWrapper>::empty());
            assert(ctor_fields_view(out@) =~= Seq::<CtorFieldView>::empty());
        }
        let mut i: usize = 0;
        while i < n
            invariant
                n == self.fields@.len(),
                i <= n,
                s == self.fields@,
                spec_ref_ctors(s.take(i as int)) == Ok::<Seq<CtorFieldView>, DeriveError>(
                    ctor_fields_view(out@),
                ),
                spec_ref_decls(s.take(i as int)) is Ok,
            decreases n - i,
        {
            let f = &self.fields[i];
            if let Some(e) = check_field(f) {
                proof {
                    assert(ref_field_check(s[i as int]) == Some(e));
                    lemma_ref_first_err(s, i as int);
                }
                return Err(e);
            }
            match f.to_ref_ctor() {
                Ok(expr) => {
                    let ghost out0 = out@;
                    out.push(CtorField { ident: f.ident().clone(), expr });
                    proof {
                        assert(ctor_fields_view(out@) =~= ctor_fields_view(out0).push(
                            out@.last()@,
                        ));
                        assert(s.take(i + 1).drop_last() =~= s.take(i as int));
                        assert(s.take(i + 1).last() == s[i as int]);
                    }
                },
                Err(e) => {
                    proof {
                        assert(ref_field_check(s[i as int]) == Some(e));
                        lemma_ref_first_err(s, i as int);
                    }
                    return Err(e);
                },
            }
            i += 1;
        }
        proof {
            assert(s.take(n as int) =~= s);
        }
        Ok(out)
    }

    /// Assemble the owned-shared companion declaration.
    fn rc_decl_with(&self, is_enum: bool) -> (r: Result<DeclShape, DeriveError>)
        ensures
            match r {
                Ok(d) => spec_rc_decls(self.fields@) matches Ok(fs) && d@ == (DeclView {
                    ident: "Rc"@ + self.ident@,
                    generics: self.generics@,
                    derives: spec_derive_features(self.features),
                    is_enum: is_enum,
                    fields: fs,
                }),
                Err(e) => spec_rc_decls(self.fields@) == Err::<Seq<FieldDeclView>, DeriveError>(e),
            },
    {
        match self.rc_decl_fields() {
            Ok(fields) => Ok(
                DeclShape {
                    ident: format_rc_ident(&self.ident),
                    generics: self.make_rc_generic(),
                    derives: make_derive_features(&self.features),
                    is_enum,
                    fields,
                },
            ),
            Err(e) => Err(e),
        }
    }

    /// Assemble the borrowed-scoped companion declaration.
    fn ref_decl_with(&self, is_enum: bool) -> (r: Result<DeclShape, DeriveError>)
        ensures
            match r {
                Ok(d) => spec_ref_decls(self.fields@) matches Ok(fs) && d@ == (DeclView {
                    ident: "Ref"@ + self.ident@,
                    generics: seq![GenericParamView::Lifetime("stateful"@)] + self.generics@,
                    derives: spec_ref_derive_features(self.features),
                    is_enum: is_enum,
                    fields: fs,
                }),
                Err(e) => spec_ref_decls(self.fields@) == Err::<Seq<FieldDeclView>, DeriveError>(
                    e,
                ),
            },
    {
        match self.ref_decl_fields() {
            Ok(fields) => Ok(
                DeclShape {
                    ident: format_ref_ident(&self.ident),
                    generics: self.make_ref_generic(),
                    derives: make_ref_derive_features(&self.features),
                    is_enum,
                    fields,
                },
            ),
            Err(e) => Err(e),
        }
    }

    /// Assemble the owned-shared companion constructor.
    fn rc_ctor_with(&self, is_enum: bool) -> (r: Result<CtorShape, DeriveError>)
        ensures
            match r {
                Ok(c) => spec_rc_ctors(self.fields@) matches Ok(fs) && c@ == (CtorView {
                    companion: "Rc"@ + self.ident@,
                    source: self.ident@,
                    generics: self.generics@,
                    source_generics: self.generics@,
                    ctor_lifetime: None,
                    bounds: Seq::empty(),
                    is_enum: is_enum,
                    fields: fs,
                }),
                Err(e) => spec_rc_ctors(self.fields@) == Err::<Seq<CtorFieldView>, DeriveError>(e),
            },
    {
        match self.rc_ctor_fields() {
            Ok(fields) => {
                let bounds: Vec<String> = Vec::new();
                proof {
                    assert(strings_view(bounds@) =~= Seq::<Seq<char>>::empty());
                }
                Ok(
                    CtorShape {
                        companion: format_rc_ident(&self.ident),
                        source: self.ident.clone(),
                        generics: self.make_rc_generic(),
                        source_generics: self.generics.duplicate(),
                        ctor_lifetime: None,
                        bounds,
                        is_enum,
                        fields,
                    },
                )
            },
            Err(e) => Err(e),
        }
    }

    /// Assemble the borrowed-scoped companion constructor: it takes the
    /// construction scope, and every source lifetime must outlive it.
    fn ref_ctor_with(&self, is_enum: bool) -> (r: Result<CtorShape, DeriveError>)
        ensures
            match r {
                Ok(c) => spec_ref_ctors(self.fields@) matches Ok(fs) && c@ == (CtorView {
                    companion: "Ref"@ + self.ident@,
                    source: self.ident@,
                    generics: seq![GenericParamView::Lifetime("stateful"@)] + self.generics@,
                    source_generics: self.generics@,
                    ctor_lifetime: Some("ctor_ref"@),
                    bounds: spec_lifetimes(
                        seq![GenericParamView::Lifetime("stateful"@)] + self.generics@,
                    ),
                    is_enum: is_enum,
                    fields: fs,
                }),
                Err(e) => spec_ref_ctors(self.fields@) == Err::<Seq<CtorFieldView>, DeriveError>(
                    e,
                ),
            },
    {
        match self.ref_ctor_fields() {
            Ok(fields) => {
                let generics = self.make_ref_generic();
                let bounds = extract_lifetimes(&generics);
                Ok(
                    CtorShape {
                        companion: format_ref_ident(&self.ident),
                        source: self.ident.clone(),
                        generics,
                        source_generics: self.generics.duplicate(),
                        ctor_lifetime: Some("ctor_ref".to_owned()),
                        bounds,
                        is_enum,
                        fields,
                    },
                )
            },
            Err(e) => Err(e),
        }
    }
}

impl Deriver<StructDecl> {
    /// The owned-shared companion declaration of the record.
    pub fn derive_rc_decl(&self) -> (r: Result<DeclShape, DeriveError>)
        ensures
            match r {
                Ok(d) => spec_rc_decls(self.fields@) matches Ok(fs) && d@ == (DeclView {
                    ident: "Rc"@ + self.ident@,
                    generics: self.generics@,
                    derives: spec_derive_features(self.features),
                    is_enum: false,
                    fields: fs,
                }),
                Err(e) => spec_rc_decls(self.fields@) == Err::<Seq<FieldDeclView>, DeriveError>(e),
            },
    {
        self.rc_decl_with(false)
    }

    /// The borrowed-scoped companion declaration of the record.
    pub fn derive_ref_decl(&self) -> (r: Result<DeclShape, DeriveError>)
        ensures
            match r {
                Ok(d) => spec_ref_decls(self.fields@) matches Ok(fs) && d@ == (DeclView {
                    ident: "Ref"@ + self.ident@,
                    generics: seq![GenericParamView::Lifetime("stateful"@)] + self.generics@,
                    derives: spec_ref_derive_features(self.features),
                    is_enum: false,
                    fields: fs,
                }),
                Err(e) => spec_ref_decls(self.fields@) == Err::<Seq<FieldDeclView>, DeriveError>(
                    e,
                ),
            },
    {
        self.ref_decl_with(false)
    }

    /// The owned-shared companion constructor of the record.
    pub fn derive_rc_ctor(&self) -> (r: Result<CtorShape, DeriveError>)
        ensures
            match r {
                Ok(c) => spec_rc_ctors(self.fields@) matches Ok(fs) && c@ == (CtorView {
                    companion: "Rc"@ + self.ident@,
                    source: self.ident@,
                    generics: self.generics@,
                    source_generics: self.generics@,
                    ctor_lifetime: None,
                    bounds: Seq::empty(),
                    is_enum: false,
                    fields: fs,
                }),
                Err(e) => spec_rc_ctors(self.fields@) == Err::<Seq<CtorFieldView>, DeriveError>(e),
            },
    {
        self.rc_ctor_with(false)
    }

    /// The borrowed-scoped companion constructor of the record.
    pub fn derive_ref_ctor(&self) -> (r: Result<CtorShape, DeriveError>)
        ensures
            match r {
                Ok(c) => spec_ref_ctors(self.fields@) matches Ok(fs) && c@ == (CtorView {
                    companion: "Ref"@ + self.ident@,
                    source: self.ident@,
                    generics: seq![GenericParamView::Lifetime("stateful"@)] + self.generics@,
                    source_generics: self.generics@,
                    ctor_lifetime: Some("ctor_ref"@),
                    bounds: spec_lifetimes(
                        seq![GenericParamView::Lifetime("stateful"@)] + self.generics@,
                    ),
                    is_enum: false,
                    fields: fs,
                }),
                Err(e) => spec_ref_ctors(self.fields@) == Err::<Seq<CtorFieldView>, DeriveError>(
                    e,
                ),
            },
    {
        self.ref_ctor_with(false)
    }
}

impl Deriver<EnumDecl> {
    /// The owned-shared companion declaration of the union.
    pub fn derive_rc_decl(&self) -> (r: Result<DeclShape, DeriveError>)
        ensures
            match r {
                Ok(d) => spec_rc_decls(self.fields@) matches Ok(fs) && d@ == (DeclView {
                    ident: "Rc"@ + self.ident@,
                    generics: self.generics@,
                    derives: spec_derive_features(self.features),
                    is_enum: true,
                    fields: fs,
                }),
                Err(e) => spec_rc_decls(self.fields@) == Err::<Seq<FieldDeclView>, DeriveError>(e),
            },
    {
        self.rc_decl_with(true)
    }

    /// The borrowed-scoped companion declaration of the union.
    pub fn derive_ref_decl(&self) -> (r: Result<DeclShape, DeriveError>)
        ensures
            match r {
                Ok(d) => spec_ref_decls(self.fields@) matches Ok(fs) && d@ == (DeclView {
                    ident: "Ref"@ + self.ident@,
                    generics: seq![GenericParamView::Lifetime("stateful"@)] + self.generics@,
                    derives: spec_ref_derive_features(self.features),
                    is_enum: true,
                    fields: fs,
                }),
                Err(e) => spec_ref_decls(self.fields@) == Err::<Seq<FieldDeclView>, DeriveError>(
                    e,
                ),
            },
    {
        self.ref_decl_with(true)
    }

    /// The owned-shared companion constructor of the union.
    pub fn derive_rc_ctor(&self) -> (r: Result<CtorShape, DeriveError>)
        ensures
            match r {
                Ok(c) => spec_rc_ctors(self.fields@) matches Ok(fs) && c@ == (CtorView {
                    companion: "Rc"@ + self.ident@,
                    source: self.ident@,
                    generics: self.generics@,
                    source_generics: self.generics@,
                    ctor_lifetime: None,
                    bounds: Seq::empty(),
                    is_enum: true,
                    fields: fs,
                }),
                Err(e) => spec_rc_ctors(self.fields@) == Err::<Seq<CtorFieldView>, DeriveError>(e),
            },
    {
        self.rc_ctor_with(true)
    }

    /// The borrowed-scoped companion constructor of the union.
    pub fn derive_ref_ctor(&self) -> (r: Result<CtorShape, DeriveError>)
        ensures
            match r {
                Ok(c) => spec_ref_ctors(self.fields@) matches Ok(fs) && c@ == (CtorView {
                    companion: "Ref"@ + self.ident@,
                    source: self.ident@,
                    generics: seq![GenericParamView::Lifetime("stateful"@)] + self.generics@,
                    source_generics: self.generics@,
                    ctor_lifetime: Some("ctor_ref"@),
                    bounds: spec_lifetimes(
                        seq![GenericParamView::Lifetime("stateful"@)] + self.generics@,
                    ),
                    is_enum: true,
                    fields: fs,
                }),
                Err(e) => spec_ref_ctors(self.fields@) == Err::<Seq<CtorFieldView>, DeriveError>(
                    e,
                ),
            },
    {
        self.ref_ctor_with(true)
    }
}

} // verus!
