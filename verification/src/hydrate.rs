//! Hydration: resolving an unresolved (flat) type, under a substitution
//! for its generic symbols and a registry of typedefs, into a fully
//! resolved type. Expansion of a named typedef consumes one unit of
//! fuel, so hydration of a self-referential typedef chain fails rather
//! than looping.

use vstd::prelude::*;

use crate::error::ToolboxIdlError;
use crate::lookup::spec_lookup;
use crate::lookup::ToolboxIdlLookup;
use crate::text::clone_opt_string;
use crate::type_flat::ToolboxIdlTypeFlat;
use crate::type_flat::ToolboxIdlTypeFlatEnumVariant;
use crate::type_flat::ToolboxIdlTypeFlatEnumVariantView;
use crate::type_flat::ToolboxIdlTypeFlatFieldNamed;
use crate::type_flat::ToolboxIdlTypeFlatFieldUnnamed;
use crate::type_flat::ToolboxIdlTypeFlatFields;
use crate::type_flat::ToolboxIdlTypeFlatFieldsView;
use crate::type_flat::ToolboxIdlTypeFlatView;
use crate::type_flat::spec_type_flat_view;
use crate::type_flat::spec_type_flat_seq_view;
use crate::type_flat::spec_type_flat_variant_view;
use crate::type_flat::spec_type_flat_variants_view;
use crate::type_flat::spec_type_flat_fields_named_view;
use crate::type_flat::spec_type_flat_fields_unnamed_view;
use crate::type_full::spec_type_full_view;
use crate::type_full::spec_type_full_variant_view;
use crate::type_full::spec_type_full_variants_view;
use crate::type_full::spec_type_full_fields_named_view;
use crate::type_full::spec_type_full_fields_unnamed_view;
use crate::type_flat::lemma_type_flat_seq_view;
use crate::type_flat::lemma_type_flat_fields_named_view;
use crate::type_flat::lemma_type_flat_fields_unnamed_view;
use crate::type_flat::lemma_type_flat_variants_view;
use crate::type_full::ToolboxIdlTypeFull;
use crate::type_full::ToolboxIdlTypeFullEnumVariant;
use crate::type_full::ToolboxIdlTypeFullEnumVariantView;
use crate::type_full::ToolboxIdlTypeFullFieldNamed;
use crate::type_full::ToolboxIdlTypeFullFieldUnnamed;
use crate::type_full::ToolboxIdlTypeFullFields;
use crate::type_full::ToolboxIdlTypeFullFieldsView;
use crate::type_full::ToolboxIdlTypeFullOrConstLiteral;
use crate::type_full::ToolboxIdlTypeFullOrConstLiteralView;
use crate::type_full::ToolboxIdlTypeFullView;
use crate::type_full::lemma_type_full_fields_named_view;
use crate::type_full::lemma_type_full_fields_unnamed_view;
use crate::type_full::lemma_type_full_variants_view;
use crate::typedef::ToolboxIdlTypedef;
use crate::typedef::ToolboxIdlTypedefView;

verus! {

/// How many nested typedef expansions hydration follows before it
/// reports unbounded recursion. The bound is the termination measure:
/// a self-referential typedef chain fails instead of looping, at the
/// price that a (practically unheard-of) interface nesting typedef
/// references deeper than this also fails. Only `Defined` expansion
/// consumes fuel, so ordinary structural depth is unaffected.
pub const HYDRATE_FUEL: u32 = 999;

/// The substitution model: generic symbols bound to resolved types or
/// integer literals.
pub type SpecGenerics = Seq<(Seq<char>, ToolboxIdlTypeFullOrConstLiteralView)>;

/// The registry model: typedef names bound to typedef models.
pub type SpecTypedefs = Seq<(Seq<char>, ToolboxIdlTypedefView)>;

/// Hydrates a flat node to a resolved type or an integer literal.
/// `None` is failure: an unknown typedef, an unbound generic, too few
/// generic arguments, an array length that is not a literal, a literal
/// where a type is required, an out-of-range length, or fuel exhausted
/// by nested typedef expansion.
pub open spec fn spec_hydrate_or_const_literal(
    flat: ToolboxIdlTypeFlatView,
    generics_by_symbol: SpecGenerics,
    typedefs: SpecTypedefs,
    fuel: nat,
) -> Option<ToolboxIdlTypeFullOrConstLiteralView>
    decreases fuel, flat, 0int,
{
    match flat {
        ToolboxIdlTypeFlatView::Defined { name, generics } => {
            if fuel == 0 {
                None
            } else {
                proof {
                    assert(decreases_to!(flat => flat->Defined_generics));
                }
                match spec_lookup(typedefs, name) {
                    None => None,
                    Some(typedef) => {
                        if generics.len() < typedef.generics.len() {
                            None
                        } else {
                            match spec_hydrate_generics(
                                generics,
                                typedef.generics,
                                generics_by_symbol,
                                typedefs,
                                fuel,
                                typedef.generics.len() as int,
                            ) {
                                None => None,
                                Some(bound_generics) => {
                                    match spec_hydrate_full(
                                        typedef.type_flat,
                                        bound_generics,
                                        typedefs,
                                        (fuel - 1) as nat,
                                    ) {
                                        None => None,
                                        Some(content) => {
                                            if typedef.serialization == Some("bytemuck"@) {
                                                match crate::bytemuck::spec_bytemuck(content) {
                                                    Some(layout) => Some(
                                                        ToolboxIdlTypeFullOrConstLiteralView::ToolboxIdlTypeFull(
                                                            layout.2,
                                                        ),
                                                    ),
                                                    None => None,
                                                }
                                            } else {
                                                Some(
                                                    ToolboxIdlTypeFullOrConstLiteralView::ToolboxIdlTypeFull(
                                                        ToolboxIdlTypeFullView::Typedef {
                                                            name: typedef.name,
                                                            repr: typedef.repr,
                                                            content: Box::new(content),
                                                        },
                                                    ),
                                                )
                                            }
                                        },
                                    }
                                },
                            }
                        }
                    },
                }
            }
        },
        ToolboxIdlTypeFlatView::Generic { symbol } => spec_lookup(generics_by_symbol, symbol),
        ToolboxIdlTypeFlatView::Option { prefix, content } => {
            proof {
                assert(decreases_to!(flat => flat->Option_content));
            }
            match spec_hydrate_full(*content, generics_by_symbol, typedefs, fuel) {
                None => None,
                Some(full) => Some(
                    ToolboxIdlTypeFullOrConstLiteralView::ToolboxIdlTypeFull(
                        ToolboxIdlTypeFullView::Option { prefix, content: Box::new(full) },
                    ),
                ),
            }
        },
        ToolboxIdlTypeFlatView::Vec { prefix, items } => {
            proof {
                assert(decreases_to!(flat => flat->Vec_items));
            }
            match spec_hydrate_full(*items, generics_by_symbol, typedefs, fuel) {
                None => None,
                Some(full) => Some(
                    ToolboxIdlTypeFullOrConstLiteralView::ToolboxIdlTypeFull(
                        ToolboxIdlTypeFullView::Vec { prefix, items: Box::new(full) },
                    ),
                ),
            }
        },
        ToolboxIdlTypeFlatView::Array { items, length } => {
            proof {
                assert(decreases_to!(flat => flat->Array_items));
                assert(decreases_to!(flat => flat->Array_length));
            }
            match spec_hydrate_full(*items, generics_by_symbol, typedefs, fuel) {
                None => None,
                Some(full_items) => {
                    match spec_hydrate_or_const_literal(
                        *length,
                        generics_by_symbol,
                        typedefs,
                        fuel,
                    ) {
                        Some(
                            ToolboxIdlTypeFullOrConstLiteralView::ConstLiteral(literal),
                        ) => {
                            if literal <= usize::MAX {
                                Some(
                                    ToolboxIdlTypeFullOrConstLiteralView::ToolboxIdlTypeFull(
                                        ToolboxIdlTypeFullView::Array {
                                            items: Box::new(full_items),
                                            length: literal as usize,
                                        },
                                    ),
                                )
                            } else {
                                None
                            }
                        },
                        _ => None,
                    }
                },
            }
        },
        ToolboxIdlTypeFlatView::String { prefix } => Some(
            ToolboxIdlTypeFullOrConstLiteralView::ToolboxIdlTypeFull(
                ToolboxIdlTypeFullView::String { prefix },
            ),
        ),
        ToolboxIdlTypeFlatView::Struct { fields } => {
            proof {
                assert(decreases_to!(flat => flat->Struct_fields));
            }
            match spec_hydrate_fields(fields, generics_by_symbol, typedefs, fuel) {
                None => None,
                Some(full_fields) => Some(
                    ToolboxIdlTypeFullOrConstLiteralView::ToolboxIdlTypeFull(
                        ToolboxIdlTypeFullView::Struct { fields: full_fields },
                    ),
                ),
            }
        },
        ToolboxIdlTypeFlatView::Enum { prefix, variants } => {
            proof {
                assert(decreases_to!(flat => flat->Enum_variants));
            }
            match spec_hydrate_variants(
                variants,
                generics_by_symbol,
                typedefs,
                fuel,
                variants.len() as int,
            ) {
                None => None,
                Some(full_variants) => Some(
                    ToolboxIdlTypeFullOrConstLiteralView::ToolboxIdlTypeFull(
                        ToolboxIdlTypeFullView::Enum { prefix, variants: full_variants },
                    ),
                ),
            }
        },
        ToolboxIdlTypeFlatView::Padded { before, min_size, after, content } => {
            proof {
                assert(decreases_to!(flat => flat->Padded_content));
            }
            match spec_hydrate_full(*content, generics_by_symbol, typedefs, fuel) {
                None => None,
                Some(full) => Some(
                    ToolboxIdlTypeFullOrConstLiteralView::ToolboxIdlTypeFull(
                        ToolboxIdlTypeFullView::Padded {
                            before,
                            min_size,
                            after,
                            content: Box::new(full),
                        },
                    ),
                ),
            }
        },
        ToolboxIdlTypeFlatView::Const { literal } => Some(
            ToolboxIdlTypeFullOrConstLiteralView::ConstLiteral(literal),
        ),
        ToolboxIdlTypeFlatView::Primitive { primitive } => Some(
            ToolboxIdlTypeFullOrConstLiteralView::ToolboxIdlTypeFull(
                ToolboxIdlTypeFullView::Primitive { primitive },
            ),
        ),
    }
}

/// Hydrates a flat node that must denote a standalone type; an integer
/// literal here is a failure.
pub open spec fn spec_hydrate_full(
    flat: ToolboxIdlTypeFlatView,
    generics_by_symbol: SpecGenerics,
    typedefs: SpecTypedefs,
    fuel: nat,
) -> Option<ToolboxIdlTypeFullView>
    decreases fuel, flat, 1int,
{
    match spec_hydrate_or_const_literal(flat, generics_by_symbol, typedefs, fuel) {
        Some(ToolboxIdlTypeFullOrConstLiteralView::ToolboxIdlTypeFull(full)) => Some(full),
        _ => None,
    }
}

/// Hydrates the first `k` generic arguments and binds them to the
/// typedef's own generic symbols, in declaration order.
pub open spec fn spec_hydrate_generics(
    args: Seq<ToolboxIdlTypeFlatView>,
    params: Seq<Seq<char>>,
    generics_by_symbol: SpecGenerics,
    typedefs: SpecTypedefs,
    fuel: nat,
    k: int,
) -> Option<SpecGenerics>
    decreases fuel, args, k,
{
    if k <= 0 {
        Some(Seq::empty())
    } else if k > args.len() || k > params.len() {
        None
    } else {
        proof {
            assert(decreases_to!(args => args[k - 1]));
        }
        match spec_hydrate_generics(args, params, generics_by_symbol, typedefs, fuel, k - 1) {
            None => None,
            Some(prev) => {
                match spec_hydrate_or_const_literal(
                    args[k - 1],
                    generics_by_symbol,
                    typedefs,
                    fuel,
                ) {
                    None => None,
                    Some(value) => Some(prev.push((params[k - 1], value))),
                }
            },
        }
    }
}

/// Hydrates a field list.
pub open spec fn spec_hydrate_fields(
    fields: ToolboxIdlTypeFlatFieldsView,
    generics_by_symbol: SpecGenerics,
    typedefs: SpecTypedefs,
    fuel: nat,
) -> Option<ToolboxIdlTypeFullFieldsView>
    decreases fuel, fields, 0int,
{
    match fields {
        ToolboxIdlTypeFlatFieldsView::Nothing => Some(ToolboxIdlTypeFullFieldsView::Nothing),
        ToolboxIdlTypeFlatFieldsView::Named(fs) => {
            proof {
                assert(decreases_to!(fields => fields->Named_0));
            }
            match spec_hydrate_fields_named(
                fs,
                generics_by_symbol,
                typedefs,
                fuel,
                fs.len() as int,
            ) {
                None => None,
                Some(full_fs) => Some(ToolboxIdlTypeFullFieldsView::Named(full_fs)),
            }
        },
        ToolboxIdlTypeFlatFieldsView::Unnamed(fs) => {
            proof {
                assert(decreases_to!(fields => fields->Unnamed_0));
            }
            match spec_hydrate_fields_unnamed(
                fs,
                generics_by_symbol,
                typedefs,
                fuel,
                fs.len() as int,
            ) {
                None => None,
                Some(full_fs) => Some(ToolboxIdlTypeFullFieldsView::Unnamed(full_fs)),
            }
        },
    }
}

/// Hydrates the first `k` named fields.
pub open spec fn spec_hydrate_fields_named(
    fs: Seq<(Seq<char>, ToolboxIdlTypeFlatView)>,
    generics_by_symbol: SpecGenerics,
    typedefs: SpecTypedefs,
    fuel: nat,
    k: int,
) -> Option<Seq<(Seq<char>, ToolboxIdlTypeFullView)>>
    decreases fuel, fs, k,
{
    if k <= 0 {
        Some(Seq::empty())
    } else if k > fs.len() {
        None
    } else {
        proof {
            assert(decreases_to!(fs => fs[k - 1]));
            assert(decreases_to!(fs[k - 1] => fs[k - 1].1));
        }
        match spec_hydrate_fields_named(fs, generics_by_symbol, typedefs, fuel, k - 1) {
            None => None,
            Some(prev) => {
                match spec_hydrate_full(fs[k - 1].1, generics_by_symbol, typedefs, fuel) {
                    None => None,
                    Some(full) => Some(prev.push((fs[k - 1].0, full))),
                }
            },
        }
    }
}

/// Hydrates the first `k` positional fields.
pub open spec fn spec_hydrate_fields_unnamed(
    fs: Seq<ToolboxIdlTypeFlatView>,
    generics_by_symbol: SpecGenerics,
    typedefs: SpecTypedefs,
    fuel: nat,
    k: int,
) -> Option<Seq<ToolboxIdlTypeFullView>>
    decreases fuel, fs, k,
{
    if k <= 0 {
        Some(Seq::empty())
    } else if k > fs.len() {
        None
    } else {
        proof {
            assert(decreases_to!(fs => fs[k - 1]));
        }
        match spec_hydrate_fields_unnamed(fs, generics_by_symbol, typedefs, fuel, k - 1) {
            None => None,
            Some(prev) => {
                match spec_hydrate_full(fs[k - 1], generics_by_symbol, typedefs, fuel) {
                    None => None,
                    Some(full) => Some(prev.push(full)),
                }
            },
        }
    }
}

/// Hydrates the first `k` enum variants.
pub open spec fn spec_hydrate_variants(
    vs: Seq<ToolboxIdlTypeFlatEnumVariantView>,
    generics_by_symbol: SpecGenerics,
    typedefs: SpecTypedefs,
    fuel: nat,
    k: int,
) -> Option<Seq<ToolboxIdlTypeFullEnumVariantView>>
    decreases fuel, vs, k,
{
    if k <= 0 {
        Some(Seq::empty())
    } else if k > vs.len() {
        None
    } else {
        proof {
            assert(decreases_to!(vs => vs[k - 1]));
        }
        match spec_hydrate_variants(vs, generics_by_symbol, typedefs, fuel, k - 1) {
            None => None,
            Some(prev) => {
                match spec_hydrate_variant(vs[k - 1], generics_by_symbol, typedefs, fuel) {
                    None => None,
                    Some(full) => Some(prev.push(full)),
                }
            },
        }
    }
}

/// Hydrates one enum variant.
pub open spec fn spec_hydrate_variant(
    v: ToolboxIdlTypeFlatEnumVariantView,
    generics_by_symbol: SpecGenerics,
    typedefs: SpecTypedefs,
    fuel: nat,
) -> Option<ToolboxIdlTypeFullEnumVariantView>
    decreases fuel, v, 0int,
{
    proof {
        assert(decreases_to!(v => v.fields));
    }
    match spec_hydrate_fields(v.fields, generics_by_symbol, typedefs, fuel) {
        None => None,
        Some(full_fields) => Some(
            ToolboxIdlTypeFullEnumVariantView { name: v.name, code: v.code, fields: full_fields },
        ),
    }
}

/// Failure of a prefix of the generic arguments propagates to every
/// longer prefix.
proof fn lemma_hydrate_generics_none(
    args: Seq<ToolboxIdlTypeFlatView>,
    params: Seq<Seq<char>>,
    generics_by_symbol: SpecGenerics,
    typedefs: SpecTypedefs,
    fuel: nat,
    k1: int,
    k2: int,
)
    requires
        spec_hydrate_generics(args, params, generics_by_symbol, typedefs, fuel, k1) is None,
        k1 <= k2,
    ensures
        spec_hydrate_generics(args, params, generics_by_symbol, typedefs, fuel, k2) is None,
    decreases k2 - k1,
{
    if k2 > k1 {
        lemma_hydrate_generics_none(args, params, generics_by_symbol, typedefs, fuel, k1, k2 - 1);
    }
}

/// Failure of a prefix of the named fields propagates to every longer
/// prefix.
proof fn lemma_hydrate_fields_named_none(
    fs: Seq<(Seq<char>, ToolboxIdlTypeFlatView)>,
    generics_by_symbol: SpecGenerics,
    typedefs: SpecTypedefs,
    fuel: nat,
    k1: int,
    k2: int,
)
    requires
        spec_hydrate_fields_named(fs, generics_by_symbol, typedefs, fuel, k1) is None,
        k1 <= k2,
    ensures
        spec_hydrate_fields_named(fs, generics_by_symbol, typedefs, fuel, k2) is None,
    decreases k2 - k1,
{
    if k2 > k1 {
        lemma_hydrate_fields_named_none(fs, generics_by_symbol, typedefs, fuel, k1, k2 - 1);
    }
}

/// Failure of a prefix of the positional fields propagates to every
/// longer prefix.
proof fn lemma_hydrate_fields_unnamed_none(
    fs: Seq<ToolboxIdlTypeFlatView>,
    generics_by_symbol: SpecGenerics,
    typedefs: SpecTypedefs,
    fuel: nat,
    k1: int,
    k2: int,
)
    requires
        spec_hydrate_fields_unnamed(fs, generics_by_symbol, typedefs, fuel, k1) is None,
        k1 <= k2,
    ensures
        spec_hydrate_fields_unnamed(fs, generics_by_symbol, typedefs, fuel, k2) is None,
    decreases k2 - k1,
{
    if k2 > k1 {
        lemma_hydrate_fields_unnamed_none(fs, generics_by_symbol, typedefs, fuel, k1, k2 - 1);
    }
}

/// Failure of a prefix of the variants propagates to every longer
/// prefix.
proof fn lemma_hydrate_variants_none(
    vs: Seq<ToolboxIdlTypeFlatEnumVariantView>,
    generics_by_symbol: SpecGenerics,
    typedefs: SpecTypedefs,
    fuel: nat,
    k1: int,
    k2: int,
)
    requires
        spec_hydrate_variants(vs, generics_by_symbol, typedefs, fuel, k1) is None,
        k1 <= k2,
    ensures
        spec_hydrate_variants(vs, generics_by_symbol, typedefs, fuel, k2) is None,
    decreases k2 - k1,
{
    if k2 > k1 {
        lemma_hydrate_variants_none(vs, generics_by_symbol, typedefs, fuel, k1, k2 - 1);
    }
}

impl ToolboxIdlTypeFlat {
    /// Resolves this flat type into a full type under the given
    /// substitution and typedef registry. Succeeds exactly when the
    /// mathematical hydration does, and then returns exactly its
    /// result.
    pub fn try_hydrate(
        &self,
        generics_by_symbol: &ToolboxIdlLookup<ToolboxIdlTypeFullOrConstLiteral>,
        typedefs: &ToolboxIdlLookup<ToolboxIdlTypedef>,
    ) -> (r: Result<ToolboxIdlTypeFull, ToolboxIdlError>)
        ensures
            match r {
                Ok(full) => spec_hydrate_full(
                    self@,
                    generics_by_symbol@,
                    typedefs@,
                    HYDRATE_FUEL as nat,
                ) == Some(full@),
                Err(_) => spec_hydrate_full(
                    self@,
                    generics_by_symbol@,
                    typedefs@,
                    HYDRATE_FUEL as nat,
                ) is None,
            },
    {
        self.try_hydrate_depth(generics_by_symbol, typedefs, HYDRATE_FUEL)
    }

    /// Resolves this flat type into a full type or an integer literal.
    pub fn try_hydrate_or_const_literal(
        &self,
        generics_by_symbol: &ToolboxIdlLookup<ToolboxIdlTypeFullOrConstLiteral>,
        typedefs: &ToolboxIdlLookup<ToolboxIdlTypedef>,
    ) -> (r: Result<ToolboxIdlTypeFullOrConstLiteral, ToolboxIdlError>)
        ensures
            match r {
                Ok(v) => spec_hydrate_or_const_literal(
                    self@,
                    generics_by_symbol@,
                    typedefs@,
                    HYDRATE_FUEL as nat,
                ) == Some(v@),
                Err(_) => spec_hydrate_or_const_literal(
                    self@,
                    generics_by_symbol@,
                    typedefs@,
                    HYDRATE_FUEL as nat,
                ) is None,
            },
    {
        self.try_hydrate_or_const_literal_depth(generics_by_symbol, typedefs, HYDRATE_FUEL)
    }

    fn try_hydrate_depth(
        &self,
        generics_by_symbol: &ToolboxIdlLookup<ToolboxIdlTypeFullOrConstLiteral>,
        typedefs: &ToolboxIdlLookup<ToolboxIdlTypedef>,
        depth: u32,
    ) -> (r: Result<ToolboxIdlTypeFull, ToolboxIdlError>)
        ensures
            match r {
                Ok(full) => spec_hydrate_full(self@, generics_by_symbol@, typedefs@, depth as nat)
                    == Some(full@),
                Err(_) => spec_hydrate_full(
                    self@,
                    generics_by_symbol@,
                    typedefs@,
                    depth as nat,
                ) is None,
            },
        decreases depth, *self, 1int,
    {
        match self.try_hydrate_or_const_literal_depth(generics_by_symbol, typedefs, depth) {
            Ok(ToolboxIdlTypeFullOrConstLiteral::ToolboxIdlTypeFull(full)) => Ok(full),
            Ok(ToolboxIdlTypeFullOrConstLiteral::ConstLiteral(_)) => Err(
                ToolboxIdlError::TypeMismatch(
                    String::from_str("const literal is not a standalone type"),
                ),
            ),
            Err(error) => Err(error),
        }
    }

    #[verifier::rlimit(100)]
    fn try_hydrate_or_const_literal_depth(
        &self,
        generics_by_symbol: &ToolboxIdlLookup<ToolboxIdlTypeFullOrConstLiteral>,
        typedefs: &ToolboxIdlLookup<ToolboxIdlTypedef>,
        depth: u32,
    ) -> (r: Result<ToolboxIdlTypeFullOrConstLiteral, ToolboxIdlError>)
        ensures
            match r {
                Ok(v) => spec_hydrate_or_const_literal(
                    self@,
                    generics_by_symbol@,
                    typedefs@,
                    depth as nat,
                ) == Some(v@),
                Err(_) => spec_hydrate_or_const_literal(
                    self@,
                    generics_by_symbol@,
                    typedefs@,
                    depth as nat,
                ) is None,
            },
        decreases depth, *self, 0int,
    {
        match self {
            ToolboxIdlTypeFlat::Defined { name, generics } => {
                if depth == 0 {
                    return Err(
                        ToolboxIdlError::Lookup(
                            String::from_str("typedef expansion exceeds the recursion limit"),
                        ),
                    );
                }
                let typedef = match typedefs.get(name.as_str()) {
                    None => {
                        return Err(
                            ToolboxIdlError::Lookup(
                                String::from_str("undefined type").concat(": ").concat(
                                    name.as_str(),
                                ),
                            ),
                        );
                    },
                    Some(typedef) => typedef,
                };
                let ghost args_view = spec_type_flat_seq_view(generics@);
                proof {
                    lemma_type_flat_seq_view(generics@);
                }
                if generics.len() < typedef.generics.len() {
                    return Err(
                        ToolboxIdlError::Arity(
                            String::from_str("insufficient generic arguments for ").concat(
                                typedef.name.as_str(),
                            ),
                        ),
                    );
                }
                let mut bound_generics: ToolboxIdlLookup<ToolboxIdlTypeFullOrConstLiteral> =
                    ToolboxIdlLookup::new();
                let mut i: usize = 0;
                while i < typedef.generics.len()
                    invariant
                        0 <= i <= typedef.generics@.len() <= generics@.len(),
                        self is Defined,
                        generics == self->Defined_generics,
                        name@ == self->Defined_name@,
                        spec_lookup(typedefs@, name@) == Some(typedef@),
                        args_view == spec_type_flat_seq_view(generics@),
                        args_view.len() == generics@.len(),
                        forall|j: int|
                            0 <= j < generics@.len() ==> #[trigger] args_view[j]
                                == spec_type_flat_view(generics@[j]),
                        spec_hydrate_generics(
                            args_view,
                            typedef@.generics,
                            generics_by_symbol@,
                            typedefs@,
                            depth as nat,
                            i as int,
                        ) == Some(bound_generics@),
                    decreases typedef.generics@.len() - i,
                {
                    proof {
                        assert(decreases_to!(*self => self->Defined_generics));
                        assert(decreases_to!(self->Defined_generics
                            => self->Defined_generics@));
                        assert(decreases_to!(self->Defined_generics@
                            => self->Defined_generics@[i as int]));
                    }
                    let value = match generics[i].try_hydrate_or_const_literal_depth(
                        generics_by_symbol,
                        typedefs,
                        depth,
                    ) {
                        Ok(value) => value,
                        Err(error) => {
                            proof {
                                assert(spec_hydrate_or_const_literal(
                                    args_view[i as int],
                                    generics_by_symbol@,
                                    typedefs@,
                                    depth as nat,
                                ) is None);
                                assert(spec_hydrate_generics(
                                    args_view,
                                    typedef@.generics,
                                    generics_by_symbol@,
                                    typedefs@,
                                    depth as nat,
                                    i + 1,
                                ) is None);
                                lemma_hydrate_generics_none(
                                    args_view,
                                    typedef@.generics,
                                    generics_by_symbol@,
                                    typedefs@,
                                    depth as nat,
                                    i + 1,
                                    typedef.generics@.len() as int,
                                );
                                assert(self@ == (ToolboxIdlTypeFlatView::Defined {
                                    name: name@,
                                    generics: args_view,
                                }));
                                assert(spec_hydrate_or_const_literal(
                                    self@,
                                    generics_by_symbol@,
                                    typedefs@,
                                    depth as nat,
                                ) is None);
                            }
                            return Err(error);
                        },
                    };
                    bound_generics.insert(typedef.generics[i].clone(), value);
                    i += 1;
                }
                let content = match typedef.type_flat.try_hydrate_depth(
                    &bound_generics,
                    typedefs,
                    depth - 1,
                ) {
                    Ok(content) => content,
                    Err(error) => {
                        return Err(error.wrap("typedef content"));
                    },
                };
                let is_fixed_layout = match &typedef.serialization {
                    Some(serialization) => crate::text::string_eq_str(
                        serialization,
                        "bytemuck",
                    ),
                    None => false,
                };
                if is_fixed_layout {
                    return match content.bytemuck() {
                        Ok(layout) => Ok(
                            ToolboxIdlTypeFullOrConstLiteral::ToolboxIdlTypeFull(layout.2),
                        ),
                        Err(error) => Err(error.wrap("typedef fixed layout")),
                    };
                }
                Ok(
                    ToolboxIdlTypeFullOrConstLiteral::ToolboxIdlTypeFull(
                        ToolboxIdlTypeFull::Typedef {
                            name: typedef.name.clone(),
                            repr: clone_opt_string(&typedef.repr),
                            content: Box::new(content),
                        },
                    ),
                )
            },
            ToolboxIdlTypeFlat::Generic { symbol } => {
                match generics_by_symbol.get(symbol.as_str()) {
                    Some(value) => Ok(value.clone()),
                    None => Err(
                        ToolboxIdlError::Lookup(
                            String::from_str("unbound generic").concat(": ").concat(
                                symbol.as_str(),
                            ),
                        ),
                    ),
                }
            },
            ToolboxIdlTypeFlat::Option { prefix, content } => {
                proof {
                    assert(decreases_to!(*self => self->Option_content));
                }
                let full = content.try_hydrate_depth(generics_by_symbol, typedefs, depth)?;
                Ok(
                    ToolboxIdlTypeFullOrConstLiteral::ToolboxIdlTypeFull(
                        ToolboxIdlTypeFull::Option {
                            prefix: *prefix,
                            content: Box::new(full),
                        },
                    ),
                )
            },
            ToolboxIdlTypeFlat::Vec { prefix, items } => {
                proof {
                    assert(decreases_to!(*self => self->Vec_items));
                }
                let full = items.try_hydrate_depth(generics_by_symbol, typedefs, depth)?;
                Ok(
                    ToolboxIdlTypeFullOrConstLiteral::ToolboxIdlTypeFull(
                        ToolboxIdlTypeFull::Vec { prefix: *prefix, items: Box::new(full) },
                    ),
                )
            },
            ToolboxIdlTypeFlat::Array { items, length } => {
                proof {
                    assert(decreases_to!(*self => self->Array_items));
                    assert(decreases_to!(*self => self->Array_length));
                }
                let full_items = items.try_hydrate_depth(generics_by_symbol, typedefs, depth)?;
                let length_value = match length.try_hydrate_or_const_literal_depth(
                    generics_by_symbol,
                    typedefs,
                    depth,
                ) {
                    Ok(ToolboxIdlTypeFullOrConstLiteral::ConstLiteral(literal)) => literal,
                    Ok(ToolboxIdlTypeFullOrConstLiteral::ToolboxIdlTypeFull(_)) => {
                        return Err(
                            ToolboxIdlError::TypeMismatch(
                                String::from_str("array length must be a const literal"),
                            ),
                        );
                    },
                    Err(error) => {
                        return Err(error.wrap("array length"));
                    },
                };
                if length_value > usize::MAX as u64 {
                    return Err(
                        ToolboxIdlError::Codec(String::from_str("array length out of range")),
                    );
                }
                Ok(
                    ToolboxIdlTypeFullOrConstLiteral::ToolboxIdlTypeFull(
                        ToolboxIdlTypeFull::Array {
                            items: Box::new(full_items),
                            length: length_value as usize,
                        },
                    ),
                )
            },
            ToolboxIdlTypeFlat::String { prefix } => Ok(
                ToolboxIdlTypeFullOrConstLiteral::ToolboxIdlTypeFull(
                    ToolboxIdlTypeFull::String { prefix: *prefix },
                ),
            ),
            ToolboxIdlTypeFlat::Struct { fields } => {
                proof {
                    assert(decreases_to!(*self => self->Struct_fields));
                }
                let full_fields = fields.try_hydrate_depth(generics_by_symbol, typedefs, depth)?;
                Ok(
                    ToolboxIdlTypeFullOrConstLiteral::ToolboxIdlTypeFull(
                        ToolboxIdlTypeFull::Struct { fields: full_fields },
                    ),
                )
            },
            ToolboxIdlTypeFlat::Enum { prefix, variants } => {
                let ghost variants_view = spec_type_flat_variants_view(variants@);
                proof {
                    lemma_type_flat_variants_view(variants@);
                }
                let mut full_variants: Vec<ToolboxIdlTypeFullEnumVariant> = Vec::new();
                let mut i: usize = 0;
                while i < variants.len()
                    invariant
                        0 <= i <= variants@.len(),
                        self is Enum,
                        variants == self->Enum_variants,
                        variants_view == spec_type_flat_variants_view(variants@),
                        variants_view.len() == variants@.len(),
                        forall|j: int|
                            0 <= j < variants@.len() ==> #[trigger] variants_view[j]
                                == spec_type_flat_variant_view(variants@[j]),
                        spec_hydrate_variants(
                            variants_view,
                            generics_by_symbol@,
                            typedefs@,
                            depth as nat,
                            i as int,
                        ) == Some(spec_type_full_variants_view(full_variants@)),
                    decreases variants@.len() - i,
                {
                    proof {
                        assert(decreases_to!(*self => self->Enum_variants));
                        assert(decreases_to!(self->Enum_variants => self->Enum_variants@));
                        assert(decreases_to!(self->Enum_variants@ => self->Enum_variants@[
                            i as int
                        ]));
                    }
                    let full_variant = match variants[i].try_hydrate_depth(
                        generics_by_symbol,
                        typedefs,
                        depth,
                    ) {
                        Ok(full_variant) => full_variant,
                        Err(error) => {
                            proof {
                                lemma_hydrate_variants_none(
                                    variants_view,
                                    generics_by_symbol@,
                                    typedefs@,
                                    depth as nat,
                                    i + 1,
                                    variants@.len() as int,
                                );
                            }
                            return Err(error);
                        },
                    };
                    let ghost prior = full_variants@;
                    full_variants.push(full_variant);
                    proof {
                        assert(full_variants@.subrange(0, full_variants@.len() - 1) =~= prior);
                        assert(spec_type_full_variants_view(full_variants@)
                            == spec_type_full_variants_view(prior).push(
                            spec_type_full_variant_view(full_variants@.last()),
                        ));
                    }
                    i += 1;
                }
                Ok(
                    ToolboxIdlTypeFullOrConstLiteral::ToolboxIdlTypeFull(
                        ToolboxIdlTypeFull::Enum { prefix: *prefix, variants: full_variants },
                    ),
                )
            },
            ToolboxIdlTypeFlat::Padded { before, min_size, after, content } => {
                proof {
                    assert(decreases_to!(*self => self->Padded_content));
                }
                let full = content.try_hydrate_depth(generics_by_symbol, typedefs, depth)?;
                Ok(
                    ToolboxIdlTypeFullOrConstLiteral::ToolboxIdlTypeFull(
                        ToolboxIdlTypeFull::Padded {
                            before: *before,
                            min_size: *min_size,
                            after: *after,
                            content: Box::new(full),
                        },
                    ),
                )
            },
            ToolboxIdlTypeFlat::Const { literal } => Ok(
                ToolboxIdlTypeFullOrConstLiteral::ConstLiteral(*literal),
            ),
            ToolboxIdlTypeFlat::Primitive { primitive } => Ok(
                ToolboxIdlTypeFullOrConstLiteral::ToolboxIdlTypeFull(
                    ToolboxIdlTypeFull::Primitive { primitive: *primitive },
                ),
            ),
        }
    }
}

impl ToolboxIdlTypeFlatEnumVariant {
    /// Resolves one enum variant's field list.
    pub fn try_hydrate(
        &self,
        generics_by_symbol: &ToolboxIdlLookup<ToolboxIdlTypeFullOrConstLiteral>,
        typedefs: &ToolboxIdlLookup<ToolboxIdlTypedef>,
    ) -> (r: Result<ToolboxIdlTypeFullEnumVariant, ToolboxIdlError>)
        ensures
            match r {
                Ok(v) => spec_hydrate_variant(
                    self@,
                    generics_by_symbol@,
                    typedefs@,
                    HYDRATE_FUEL as nat,
                ) == Some(v@),
                Err(_) => spec_hydrate_variant(
                    self@,
                    generics_by_symbol@,
                    typedefs@,
                    HYDRATE_FUEL as nat,
                ) is None,
            },
    {
        self.try_hydrate_depth(generics_by_symbol, typedefs, HYDRATE_FUEL)
    }

    fn try_hydrate_depth(
        &self,
        generics_by_symbol: &ToolboxIdlLookup<ToolboxIdlTypeFullOrConstLiteral>,
        typedefs: &ToolboxIdlLookup<ToolboxIdlTypedef>,
        depth: u32,
    ) -> (r: Result<ToolboxIdlTypeFullEnumVariant, ToolboxIdlError>)
        ensures
            match r {
                Ok(v) => spec_hydrate_variant(
                    self@,
                    generics_by_symbol@,
                    typedefs@,
                    depth as nat,
                ) == Some(v@),
                Err(_) => spec_hydrate_variant(
                    self@,
                    generics_by_symbol@,
                    typedefs@,
                    depth as nat,
                ) is None,
            },
        decreases depth, *self, 0int,
    {
        proof {
            let v = *self;
            assert(decreases_to!(v => v.fields));
        }
        let full_fields = match self.fields.try_hydrate_depth(
            generics_by_symbol,
            typedefs,
            depth,
        ) {
            Ok(full_fields) => full_fields,
            Err(error) => {
                return Err(error.wrap("enum variant fields"));
            },
        };
        Ok(
            ToolboxIdlTypeFullEnumVariant {
                name: self.name.clone(),
                code: self.code,
                fields: full_fields,
            },
        )
    }
}

impl ToolboxIdlTypeFlatFields {
    /// Resolves a field list.
    pub fn try_hydrate(
        &self,
        generics_by_symbol: &ToolboxIdlLookup<ToolboxIdlTypeFullOrConstLiteral>,
        typedefs: &ToolboxIdlLookup<ToolboxIdlTypedef>,
    ) -> (r: Result<ToolboxIdlTypeFullFields, ToolboxIdlError>)
        ensures
            match r {
                Ok(f) => spec_hydrate_fields(
                    self@,
                    generics_by_symbol@,
                    typedefs@,
                    HYDRATE_FUEL as nat,
                ) == Some(f@),
                Err(_) => spec_hydrate_fields(
                    self@,
                    generics_by_symbol@,
                    typedefs@,
                    HYDRATE_FUEL as nat,
                ) is None,
            },
    {
        self.try_hydrate_depth(generics_by_symbol, typedefs, HYDRATE_FUEL)
    }

    fn try_hydrate_depth(
        &self,
        generics_by_symbol: &ToolboxIdlLookup<ToolboxIdlTypeFullOrConstLiteral>,
        typedefs: &ToolboxIdlLookup<ToolboxIdlTypedef>,
        depth: u32,
    ) -> (r: Result<ToolboxIdlTypeFullFields, ToolboxIdlError>)
        ensures
            match r {
                Ok(f) => spec_hydrate_fields(
                    self@,
                    generics_by_symbol@,
                    typedefs@,
                    depth as nat,
                ) == Some(f@),
                Err(_) => spec_hydrate_fields(
                    self@,
                    generics_by_symbol@,
                    typedefs@,
                    depth as nat,
                ) is None,
            },
        decreases depth, *self, 0int,
    {
        match self {
            ToolboxIdlTypeFlatFields::Nothing => Ok(ToolboxIdlTypeFullFields::Nothing),
            ToolboxIdlTypeFlatFields::Named(fields) => {
                let ghost fields_view = spec_type_flat_fields_named_view(fields@);
                proof {
                    lemma_type_flat_fields_named_view(fields@);
                }
                let mut full_fields: Vec<ToolboxIdlTypeFullFieldNamed> = Vec::new();
                let mut i: usize = 0;
                while i < fields.len()
                    invariant
                        0 <= i <= fields@.len(),
                        self is Named,
                        fields == self->Named_0,
                        fields_view == spec_type_flat_fields_named_view(fields@),
                        fields_view.len() == fields@.len(),
                        forall|j: int|
                            0 <= j < fields@.len() ==> #[trigger] fields_view[j]
                                == (fields@[j].name@, spec_type_flat_view(fields@[j].content)),
                        spec_hydrate_fields_named(
                            fields_view,
                            generics_by_symbol@,
                            typedefs@,
                            depth as nat,
                            i as int,
                        ) == Some(spec_type_full_fields_named_view(full_fields@)),
                    decreases fields@.len() - i,
                {
                    proof {
                        assert(decreases_to!(*self => self->Named_0));
                        assert(decreases_to!(self->Named_0 => self->Named_0@));
                        assert(decreases_to!(self->Named_0@ => self->Named_0@[i as int]));
                    }
                    let field = &fields[i];
                    let full_field = match field.try_hydrate_depth(
                        generics_by_symbol,
                        typedefs,
                        depth,
                    ) {
                        Ok(full_field) => full_field,
                        Err(error) => {
                            proof {
                                lemma_hydrate_fields_named_none(
                                    fields_view,
                                    generics_by_symbol@,
                                    typedefs@,
                                    depth as nat,
                                    i + 1,
                                    fields@.len() as int,
                                );
                            }
                            return Err(error);
                        },
                    };
                    let ghost prior = full_fields@;
                    full_fields.push(full_field);
                    proof {
                        assert(full_fields@.subrange(0, full_fields@.len() - 1) =~= prior);
                    }
                    i += 1;
                }
                Ok(ToolboxIdlTypeFullFields::Named(full_fields))
            },
            ToolboxIdlTypeFlatFields::Unnamed(fields) => {
                let ghost fields_view = spec_type_flat_fields_unnamed_view(fields@);
                proof {
                    lemma_type_flat_fields_unnamed_view(fields@);
                }
                let mut full_fields: Vec<ToolboxIdlTypeFullFieldUnnamed> = Vec::new();
                let mut i: usize = 0;
                while i < fields.len()
                    invariant
                        0 <= i <= fields@.len(),
                        self is Unnamed,
                        fields == self->Unnamed_0,
                        fields_view == spec_type_flat_fields_unnamed_view(fields@),
                        fields_view.len() == fields@.len(),
                        forall|j: int|
                            0 <= j < fields@.len() ==> #[trigger] fields_view[j]
                                == spec_type_flat_view(fields@[j].content),
                        spec_hydrate_fields_unnamed(
                            fields_view,
                            generics_by_symbol@,
                            typedefs@,
                            depth as nat,
                            i as int,
                        ) == Some(spec_type_full_fields_unnamed_view(full_fields@)),
                    decreases fields@.len() - i,
                {
                    proof {
                        assert(decreases_to!(*self => self->Unnamed_0));
                        assert(decreases_to!(self->Unnamed_0 => self->Unnamed_0@));
                        assert(decreases_to!(self->Unnamed_0@ => self->Unnamed_0@[i as int]));
                    }
                    let field = &fields[i];
                    let full_field = match field.try_hydrate_depth(
                        i,
                        generics_by_symbol,
                        typedefs,
                        depth,
                    ) {
                        Ok(full_field) => full_field,
                        Err(error) => {
                            proof {
                                lemma_hydrate_fields_unnamed_none(
                                    fields_view,
                                    generics_by_symbol@,
                                    typedefs@,
                                    depth as nat,
                                    i + 1,
                                    fields@.len() as int,
                                );
                            }
                            return Err(error);
                        },
                    };
                    let ghost prior = full_fields@;
                    full_fields.push(full_field);
                    proof {
                        assert(full_fields@.subrange(0, full_fields@.len() - 1) =~= prior);
                    }
                    i += 1;
                }
                Ok(ToolboxIdlTypeFullFields::Unnamed(full_fields))
            },
        }
    }
}

impl ToolboxIdlTypeFlatFieldNamed {
    /// Resolves one named field.
    pub fn try_hydrate(
        &self,
        generics_by_symbol: &ToolboxIdlLookup<ToolboxIdlTypeFullOrConstLiteral>,
        typedefs: &ToolboxIdlLookup<ToolboxIdlTypedef>,
    ) -> (r: Result<ToolboxIdlTypeFullFieldNamed, ToolboxIdlError>)
        ensures
            match r {
                Ok(f) => f.name@ == self.name@ && spec_hydrate_full(
                    spec_type_flat_view(self.content),
                    generics_by_symbol@,
                    typedefs@,
                    HYDRATE_FUEL as nat,
                ) == Some(spec_type_full_view(f.content)),
                Err(_) => spec_hydrate_full(
                    spec_type_flat_view(self.content),
                    generics_by_symbol@,
                    typedefs@,
                    HYDRATE_FUEL as nat,
                ) is None,
            },
    {
        self.try_hydrate_depth(generics_by_symbol, typedefs, HYDRATE_FUEL)
    }

    fn try_hydrate_depth(
        &self,
        generics_by_symbol: &ToolboxIdlLookup<ToolboxIdlTypeFullOrConstLiteral>,
        typedefs: &ToolboxIdlLookup<ToolboxIdlTypedef>,
        depth: u32,
    ) -> (r: Result<ToolboxIdlTypeFullFieldNamed, ToolboxIdlError>)
        ensures
            match r {
                Ok(f) => f.name@ == self.name@ && spec_hydrate_full(
                    spec_type_flat_view(self.content),
                    generics_by_symbol@,
                    typedefs@,
                    depth as nat,
                ) == Some(spec_type_full_view(f.content)),
                Err(_) => spec_hydrate_full(
                    spec_type_flat_view(self.content),
                    generics_by_symbol@,
                    typedefs@,
                    depth as nat,
                ) is None,
            },
        decreases depth, *self, 0int,
    {
        proof {
            let f = *self;
            assert(decreases_to!(f => f.content));
        }
        let full = match self.content.try_hydrate_depth(generics_by_symbol, typedefs, depth) {
            Ok(full) => full,
            Err(error) => {
                return Err(error.wrap("named field"));
            },
        };
        Ok(ToolboxIdlTypeFullFieldNamed { name: self.name.clone(), content: full })
    }
}

impl ToolboxIdlTypeFlatFieldUnnamed {
    /// Resolves one positional field, recording its position.
    pub fn try_hydrate(
        &self,
        index: usize,
        generics_by_symbol: &ToolboxIdlLookup<ToolboxIdlTypeFullOrConstLiteral>,
        typedefs: &ToolboxIdlLookup<ToolboxIdlTypedef>,
    ) -> (r: Result<ToolboxIdlTypeFullFieldUnnamed, ToolboxIdlError>)
        ensures
            match r {
                Ok(f) => f.position == index && spec_hydrate_full(
                    spec_type_flat_view(self.content),
                    generics_by_symbol@,
                    typedefs@,
                    HYDRATE_FUEL as nat,
                ) == Some(spec_type_full_view(f.content)),
                Err(_) => spec_hydrate_full(
                    spec_type_flat_view(self.content),
                    generics_by_symbol@,
                    typedefs@,
                    HYDRATE_FUEL as nat,
                ) is None,
            },
    {
        self.try_hydrate_depth(index, generics_by_symbol, typedefs, HYDRATE_FUEL)
    }

    fn try_hydrate_depth(
        &self,
        index: usize,
        generics_by_symbol: &ToolboxIdlLookup<ToolboxIdlTypeFullOrConstLiteral>,
        typedefs: &ToolboxIdlLookup<ToolboxIdlTypedef>,
        depth: u32,
    ) -> (r: Result<ToolboxIdlTypeFullFieldUnnamed, ToolboxIdlError>)
        ensures
            match r {
                Ok(f) => f.position == index && spec_hydrate_full(
                    spec_type_flat_view(self.content),
                    generics_by_symbol@,
                    typedefs@,
                    depth as nat,
                ) == Some(spec_type_full_view(f.content)),
                Err(_) => spec_hydrate_full(
                    spec_type_flat_view(self.content),
                    generics_by_symbol@,
                    typedefs@,
                    depth as nat,
                ) is None,
            },
        decreases depth, *self, 0int,
    {
        proof {
            let f = *self;
            assert(decreases_to!(f => f.content));
        }
        let full = match self.content.try_hydrate_depth(generics_by_symbol, typedefs, depth) {
            Ok(full) => full,
            Err(error) => {
                return Err(error.wrap("positional field"));
            },
        };
        Ok(ToolboxIdlTypeFullFieldUnnamed { position: index, content: full })
    }
}

/// Hydration totality at a generic leaf: resolving a generic symbol
/// succeeds exactly when the substitution binds it, and then yields
/// the binding; removing the binding makes the same hydration fail.
pub proof fn lemma_hydrate_generic_binding(
    symbol: Seq<char>,
    generics_by_symbol: SpecGenerics,
    typedefs: SpecTypedefs,
    fuel: nat,
)
    ensures
        spec_hydrate_or_const_literal(
            ToolboxIdlTypeFlatView::Generic { symbol },
            generics_by_symbol,
            typedefs,
            fuel,
        ) == spec_lookup(generics_by_symbol, symbol),
{
}

/// Hydration totality at a typedef reference: an absent name makes the
/// hydration fail outright.
pub proof fn lemma_hydrate_undefined_name(
    name: Seq<char>,
    generics: Seq<ToolboxIdlTypeFlatView>,
    generics_by_symbol: SpecGenerics,
    typedefs: SpecTypedefs,
    fuel: nat,
)
    requires
        spec_lookup(typedefs, name) is None,
    ensures
        spec_hydrate_or_const_literal(
            ToolboxIdlTypeFlatView::Defined { name, generics },
            generics_by_symbol,
            typedefs,
            fuel,
        ) is None,
{
}

/// Hydration totality in the fuel: a hydration that succeeds within
/// some expansion budget returns the same result under any larger
/// budget, so the recursion bound never alters a successful
/// resolution — it only cuts off self-referential chains.
pub proof fn lemma_hydrate_fuel_monotone(
    flat: ToolboxIdlTypeFlatView,
    generics_by_symbol: SpecGenerics,
    typedefs: SpecTypedefs,
    fuel1: nat,
    fuel2: nat,
)
    requires
        spec_hydrate_or_const_literal(flat, generics_by_symbol, typedefs, fuel1) is Some,
        fuel1 <= fuel2,
    ensures
        spec_hydrate_or_const_literal(flat, generics_by_symbol, typedefs, fuel2)
            == spec_hydrate_or_const_literal(flat, generics_by_symbol, typedefs, fuel1),
    decreases fuel1, flat, 0int,
{
    match flat {
        ToolboxIdlTypeFlatView::Defined { name, generics } => {
            assert(decreases_to!(flat => flat->Defined_generics));
            let typedef = spec_lookup(typedefs, name).unwrap();
            lemma_hydrate_generics_fuel_monotone(
                generics,
                typedef.generics,
                generics_by_symbol,
                typedefs,
                fuel1,
                fuel2,
                typedef.generics.len() as int,
            );
            let bound = spec_hydrate_generics(
                generics,
                typedef.generics,
                generics_by_symbol,
                typedefs,
                fuel1,
                typedef.generics.len() as int,
            ).unwrap();
            lemma_hydrate_full_fuel_monotone(
                typedef.type_flat,
                bound,
                typedefs,
                (fuel1 - 1) as nat,
                (fuel2 - 1) as nat,
            );
        },
        ToolboxIdlTypeFlatView::Generic { .. } => {},
        ToolboxIdlTypeFlatView::Option { content, .. } => {
            assert(decreases_to!(flat => flat->Option_content));
            lemma_hydrate_full_fuel_monotone(
                *content,
                generics_by_symbol,
                typedefs,
                fuel1,
                fuel2,
            );
        },
        ToolboxIdlTypeFlatView::Vec { items, .. } => {
            assert(decreases_to!(flat => flat->Vec_items));
            lemma_hydrate_full_fuel_monotone(
                *items,
                generics_by_symbol,
                typedefs,
                fuel1,
                fuel2,
            );
        },
        ToolboxIdlTypeFlatView::Array { items, length } => {
            assert(decreases_to!(flat => flat->Array_items));
            assert(decreases_to!(flat => flat->Array_length));
            lemma_hydrate_full_fuel_monotone(
                *items,
                generics_by_symbol,
                typedefs,
                fuel1,
                fuel2,
            );
            lemma_hydrate_fuel_monotone(*length, generics_by_symbol, typedefs, fuel1, fuel2);
        },
        ToolboxIdlTypeFlatView::String { .. } => {},
        ToolboxIdlTypeFlatView::Struct { fields } => {
            assert(decreases_to!(flat => flat->Struct_fields));
            lemma_hydrate_fields_fuel_monotone(
                fields,
                generics_by_symbol,
                typedefs,
                fuel1,
                fuel2,
            );
        },
        ToolboxIdlTypeFlatView::Enum { variants, .. } => {
            assert(decreases_to!(flat => flat->Enum_variants));
            lemma_hydrate_variants_fuel_monotone(
                variants,
                generics_by_symbol,
                typedefs,
                fuel1,
                fuel2,
                variants.len() as int,
            );
        },
        ToolboxIdlTypeFlatView::Padded { content, .. } => {
            assert(decreases_to!(flat => flat->Padded_content));
            lemma_hydrate_full_fuel_monotone(
                *content,
                generics_by_symbol,
                typedefs,
                fuel1,
                fuel2,
            );
        },
        ToolboxIdlTypeFlatView::Const { .. } => {},
        ToolboxIdlTypeFlatView::Primitive { .. } => {},
    }
}

/// Fuel monotonicity of a full-type hydration.
proof fn lemma_hydrate_full_fuel_monotone(
    flat: ToolboxIdlTypeFlatView,
    generics_by_symbol: SpecGenerics,
    typedefs: SpecTypedefs,
    fuel1: nat,
    fuel2: nat,
)
    requires
        fuel1 <= fuel2,
    ensures
        spec_hydrate_full(flat, generics_by_symbol, typedefs, fuel1) is Some
            ==> spec_hydrate_full(flat, generics_by_symbol, typedefs, fuel2)
            == spec_hydrate_full(flat, generics_by_symbol, typedefs, fuel1),
    decreases fuel1, flat, 1int,
{
    if spec_hydrate_or_const_literal(flat, generics_by_symbol, typedefs, fuel1) is Some {
        lemma_hydrate_fuel_monotone(flat, generics_by_symbol, typedefs, fuel1, fuel2);
    }
}

/// Fuel monotonicity of a generic-argument binding pass.
proof fn lemma_hydrate_generics_fuel_monotone(
    args: Seq<ToolboxIdlTypeFlatView>,
    params: Seq<Seq<char>>,
    generics_by_symbol: SpecGenerics,
    typedefs: SpecTypedefs,
    fuel1: nat,
    fuel2: nat,
    k: int,
)
    requires
        spec_hydrate_generics(args, params, generics_by_symbol, typedefs, fuel1, k) is Some,
        fuel1 <= fuel2,
    ensures
        spec_hydrate_generics(args, params, generics_by_symbol, typedefs, fuel2, k)
            == spec_hydrate_generics(args, params, generics_by_symbol, typedefs, fuel1, k),
    decreases fuel1, args, k,
{
    if k > 0 {
        assert(decreases_to!(args => args[k - 1]));
        lemma_hydrate_generics_fuel_monotone(
            args,
            params,
            generics_by_symbol,
            typedefs,
            fuel1,
            fuel2,
            k - 1,
        );
        lemma_hydrate_fuel_monotone(args[k - 1], generics_by_symbol, typedefs, fuel1, fuel2);
    }
}

/// Fuel monotonicity of a field-list hydration.
proof fn lemma_hydrate_fields_fuel_monotone(
    fields: ToolboxIdlTypeFlatFieldsView,
    generics_by_symbol: SpecGenerics,
    typedefs: SpecTypedefs,
    fuel1: nat,
    fuel2: nat,
)
    requires
        spec_hydrate_fields(fields, generics_by_symbol, typedefs, fuel1) is Some,
        fuel1 <= fuel2,
    ensures
        spec_hydrate_fields(fields, generics_by_symbol, typedefs, fuel2)
            == spec_hydrate_fields(fields, generics_by_symbol, typedefs, fuel1),
    decreases fuel1, fields, 0int,
{
    match fields {
        ToolboxIdlTypeFlatFieldsView::Nothing => {},
        ToolboxIdlTypeFlatFieldsView::Named(fs) => {
            assert(decreases_to!(fields => fields->Named_0));
            lemma_hydrate_fields_named_fuel_monotone(
                fs,
                generics_by_symbol,
                typedefs,
                fuel1,
                fuel2,
                fs.len() as int,
            );
        },
        ToolboxIdlTypeFlatFieldsView::Unnamed(fs) => {
            assert(decreases_to!(fields => fields->Unnamed_0));
            lemma_hydrate_fields_unnamed_fuel_monotone(
                fs,
                generics_by_symbol,
                typedefs,
                fuel1,
                fuel2,
                fs.len() as int,
            );
        },
    }
}

/// Fuel monotonicity of a named-field pass.
proof fn lemma_hydrate_fields_named_fuel_monotone(
    fs: Seq<(Seq<char>, ToolboxIdlTypeFlatView)>,
    generics_by_symbol: SpecGenerics,
    typedefs: SpecTypedefs,
    fuel1: nat,
    fuel2: nat,
    k: int,
)
    requires
        spec_hydrate_fields_named(fs, generics_by_symbol, typedefs, fuel1, k) is Some,
        fuel1 <= fuel2,
    ensures
        spec_hydrate_fields_named(fs, generics_by_symbol, typedefs, fuel2, k)
            == spec_hydrate_fields_named(fs, generics_by_symbol, typedefs, fuel1, k),
    decreases fuel1, fs, k,
{
    if k > 0 {
        assert(decreases_to!(fs => fs[k - 1]));
        assert(decreases_to!(fs[k - 1] => fs[k - 1].1));
        lemma_hydrate_fields_named_fuel_monotone(
            fs,
            generics_by_symbol,
            typedefs,
            fuel1,
            fuel2,
            k - 1,
        );
        lemma_hydrate_full_fuel_monotone(
            fs[k - 1].1,
            generics_by_symbol,
            typedefs,
            fuel1,
            fuel2,
        );
    }
}

/// Fuel monotonicity of a positional-field pass.
proof fn lemma_hydrate_fields_unnamed_fuel_monotone(
    fs: Seq<ToolboxIdlTypeFlatView>,
    generics_by_symbol: SpecGenerics,
    typedefs: SpecTypedefs,
    fuel1: nat,
    fuel2: nat,
    k: int,
)
    requires
        spec_hydrate_fields_unnamed(fs, generics_by_symbol, typedefs, fuel1, k) is Some,
        fuel1 <= fuel2,
    ensures
        spec_hydrate_fields_unnamed(fs, generics_by_symbol, typedefs, fuel2, k)
            == spec_hydrate_fields_unnamed(fs, generics_by_symbol, typedefs, fuel1, k),
    decreases fuel1, fs, k,
{
    if k > 0 {
        assert(decreases_to!(fs => fs[k - 1]));
        lemma_hydrate_fields_unnamed_fuel_monotone(
            fs,
            generics_by_symbol,
            typedefs,
            fuel1,
            fuel2,
            k - 1,
        );
        lemma_hydrate_full_fuel_monotone(
            fs[k - 1],
            generics_by_symbol,
            typedefs,
            fuel1,
            fuel2,
        );
    }
}

/// Fuel monotonicity of a variant pass.
proof fn lemma_hydrate_variants_fuel_monotone(
    vs: Seq<ToolboxIdlTypeFlatEnumVariantView>,
    generics_by_symbol: SpecGenerics,
    typedefs: SpecTypedefs,
    fuel1: nat,
    fuel2: nat,
    k: int,
)
    requires
        spec_hydrate_variants(vs, generics_by_symbol, typedefs, fuel1, k) is Some,
        fuel1 <= fuel2,
    ensures
        spec_hydrate_variants(vs, generics_by_symbol, typedefs, fuel2, k)
            == spec_hydrate_variants(vs, generics_by_symbol, typedefs, fuel1, k),
    decreases fuel1, vs, k,
{
    if k > 0 {
        assert(decreases_to!(vs => vs[k - 1]));
        assert(decreases_to!(vs[k - 1] => vs[k - 1].fields));
        lemma_hydrate_variants_fuel_monotone(
            vs,
            generics_by_symbol,
            typedefs,
            fuel1,
            fuel2,
            k - 1,
        );
        lemma_hydrate_variant_fuel_monotone(
            vs[k - 1],
            generics_by_symbol,
            typedefs,
            fuel1,
            fuel2,
        );
    }
}

/// Fuel monotonicity of one variant's hydration.
proof fn lemma_hydrate_variant_fuel_monotone(
    v: ToolboxIdlTypeFlatEnumVariantView,
    generics_by_symbol: SpecGenerics,
    typedefs: SpecTypedefs,
    fuel1: nat,
    fuel2: nat,
)
    requires
        spec_hydrate_variant(v, generics_by_symbol, typedefs, fuel1) is Some,
        fuel1 <= fuel2,
    ensures
        spec_hydrate_variant(v, generics_by_symbol, typedefs, fuel2) == spec_hydrate_variant(
            v,
            generics_by_symbol,
            typedefs,
            fuel1,
        ),
    decreases fuel1, v, 0int,
{
    assert(decreases_to!(v => v.fields));
    lemma_hydrate_fields_fuel_monotone(v.fields, generics_by_symbol, typedefs, fuel1, fuel2);
}

} // verus!
