//! The types that functions and aggregates use, and which of them need a
//! placeholder.

use crate::entity::{
    AggregateTypeEntity, PgAggregateEntity, PgExternArgumentEntity, PgExternEntity,
    PgExternReturnEntity, PgExternReturnEntityIteratedItem, PostgresEnumEntity,
    PostgresTypeEntity, UsedTypeEntity,
};
use crate::find::{enum_with, find_enum, find_type, path_is, type_with};
use crate::graph::SqlGraphRelationship;
use crate::tables::first_where;
use vstd::prelude::*;

verus! {

/// One use of a type: its identity, its full path, under which a placeholder
/// stands for it where nothing declares it, and how the user depends on it.
pub struct TypeUse {
    pub ty_id: u64,
    pub path: String,
    pub relationship: SqlGraphRelationship,
}

/// The use that an argument makes of its type.
pub open spec fn use_of(ty: UsedTypeEntity, relationship: SqlGraphRelationship) -> TypeUse {
    TypeUse { ty_id: ty.ty_id, path: ty.full_path, relationship }
}

/// The uses that the arguments of a function make.
pub open spec fn arg_uses(args: Seq<PgExternArgumentEntity>) -> Seq<TypeUse> {
    Seq::new(args.len(), |i: int| use_of(args[i].used_ty, SqlGraphRelationship::RequiredByArg))
}

/// The uses that the columns of a returned table make.
pub open spec fn column_uses(tys: Seq<PgExternReturnEntityIteratedItem>) -> Seq<TypeUse> {
    Seq::new(tys.len(), |i: int| use_of(tys[i].ty, SqlGraphRelationship::RequiredByReturn))
}

/// The uses that what a function returns makes.
pub open spec fn return_uses(returned: PgExternReturnEntity) -> Seq<TypeUse> {
    match returned {
        PgExternReturnEntity::Nothing => Seq::empty(),
        PgExternReturnEntity::Trigger => Seq::empty(),
        PgExternReturnEntity::Type { ty } => seq![
            use_of(ty, SqlGraphRelationship::RequiredByReturn),
        ],
        PgExternReturnEntity::SetOf { ty, .. } => seq![
            use_of(ty, SqlGraphRelationship::RequiredByReturn),
        ],
        PgExternReturnEntity::Iterated { tys, .. } => column_uses(tys@),
    }
}

/// The uses that a function makes: by its arguments, then by what it
/// returns.
pub open spec fn extern_uses(f: PgExternEntity) -> Seq<TypeUse> {
    arg_uses(f.fn_args@) + return_uses(f.fn_return)
}

/// The uses that a list of arguments of an aggregate makes.
pub open spec fn aggregate_arg_uses(args: Seq<AggregateTypeEntity>) -> Seq<TypeUse> {
    Seq::new(args.len(), |i: int| use_of(args[i].used_ty, SqlGraphRelationship::RequiredByArg))
}

/// The uses that an aggregate makes: by its arguments, then by its direct
/// arguments, then by its moving state.
pub open spec fn aggregate_uses(a: PgAggregateEntity) -> Seq<TypeUse> {
    aggregate_arg_uses(a.args@) + (match a.direct_args {
        Some(direct) => aggregate_arg_uses(direct@),
        None => Seq::empty(),
    }) + (match a.mstype {
        Some(ty) => seq![use_of(ty, SqlGraphRelationship::RequiredByArg)],
        None => Seq::empty(),
    })
}

/// Whether a type or an enumeration is declared under the identity `id`.
pub open spec fn is_declared(
    id: u64,
    types: Seq<(PostgresTypeEntity, usize)>,
    enums: Seq<(PostgresEnumEntity, usize)>,
) -> bool {
    first_where(types, type_with(id)) is Some || first_where(enums, enum_with(id)) is Some
}

/// Whether the used type is declared or has a placeholder.
pub open spec fn covered(
    used: TypeUse,
    types: Seq<(PostgresTypeEntity, usize)>,
    enums: Seq<(PostgresEnumEntity, usize)>,
    builtin_types: Seq<(String, usize)>,
) -> bool {
    is_declared(used.ty_id, types, enums) || first_where(builtin_types, path_is(used.path@))
        is Some
}

/// Whether each of the used types is declared or has a placeholder.
pub open spec fn all_covered(
    uses: Seq<TypeUse>,
    types: Seq<(PostgresTypeEntity, usize)>,
    enums: Seq<(PostgresEnumEntity, usize)>,
    builtin_types: Seq<(String, usize)>,
) -> bool {
    forall|i: int| 0 <= i < uses.len() ==> covered(#[trigger] uses[i], types, enums, builtin_types)
}

/// The use that is made of `ty`.
pub fn use_type(ty: &UsedTypeEntity, relationship: SqlGraphRelationship) -> (used: TypeUse)
    ensures
        used == use_of(*ty, relationship),
{
    TypeUse { ty_id: ty.ty_id, path: ty.full_path.clone(), relationship }
}

/// The uses that a function makes.
pub fn uses_of_extern(f: &PgExternEntity) -> (uses: Vec<TypeUse>)
    ensures
        uses@ == extern_uses(*f),
{
    let mut uses: Vec<TypeUse> = Vec::new();
    let mut i: usize = 0;
    while i < f.fn_args.len()
        invariant
            i <= f.fn_args.len(),
            uses@ == arg_uses(f.fn_args@).take(i as int),
        decreases f.fn_args.len() - i,
    {
        uses.push(use_type(&f.fn_args[i].used_ty, SqlGraphRelationship::RequiredByArg));
        i += 1;
    }
    match &f.fn_return {
        PgExternReturnEntity::Nothing => {},
        PgExternReturnEntity::Trigger => {},
        PgExternReturnEntity::Type { ty } => {
            uses.push(use_type(ty, SqlGraphRelationship::RequiredByReturn));
        },
        PgExternReturnEntity::SetOf { ty, .. } => {
            uses.push(use_type(ty, SqlGraphRelationship::RequiredByReturn));
        },
        PgExternReturnEntity::Iterated { tys, .. } => {
            let mut j: usize = 0;
            while j < tys.len()
                invariant
                    j <= tys.len(),
                    uses@ == arg_uses(f.fn_args@) + column_uses(tys@).take(j as int),
                decreases tys.len() - j,
            {
                uses.push(use_type(&tys[j].ty, SqlGraphRelationship::RequiredByReturn));
                j += 1;
            }
        },
    }
    uses
}

/// Adds to `uses` the uses that a list of arguments of an aggregate makes.
fn push_aggregate_arg_uses(uses: &mut Vec<TypeUse>, args: &Vec<AggregateTypeEntity>)
    ensures
        final(uses)@ == old(uses)@ + aggregate_arg_uses(args@),
{
    let mut i: usize = 0;
    while i < args.len()
        invariant
            i <= args.len(),
            uses@ == old(uses)@ + aggregate_arg_uses(args@).take(i as int),
        decreases args.len() - i,
    {
        uses.push(use_type(&args[i].used_ty, SqlGraphRelationship::RequiredByArg));
        i += 1;
    }
}

/// The uses that an aggregate makes.
pub fn uses_of_aggregate(a: &PgAggregateEntity) -> (uses: Vec<TypeUse>)
    ensures
        uses@ == aggregate_uses(*a),
{
    let mut uses: Vec<TypeUse> = Vec::new();
    push_aggregate_arg_uses(&mut uses, &a.args);
    match &a.direct_args {
        Some(direct) => push_aggregate_arg_uses(&mut uses, direct),
        None => {},
    }
    match &a.mstype {
        Some(ty) => uses.push(use_type(ty, SqlGraphRelationship::RequiredByArg)),
        None => {},
    }
    uses
}

/// Whether a type or an enumeration is declared under the identity `id`.
pub fn declared(
    id: u64,
    types: &Vec<(PostgresTypeEntity, usize)>,
    enums: &Vec<(PostgresEnumEntity, usize)>,
) -> (r: bool)
    ensures
        r == is_declared(id, types@, enums@),
{
    find_type(types, id).is_some() || find_enum(enums, id).is_some()
}

} // verus!
