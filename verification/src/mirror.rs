//! The mirror type of a struct: a companion whose fields are optional, and
//! the conversions between a value of the struct and a row of the mirror.

use crate::extract::{
    field_directives, field_refusal, first_for, first_of, lemma_first_for_unique, lemma_first_of_unique,
    slot_of, struct_fields, struct_refusal, type_directive, type_refusal, unannotated, FieldLevel,
    TypeLevel,
};
use crate::model::{Directive, SchemaError, SchemaErrorModel, Synthesizer, TypeDeclaration};
use vstd::prelude::*;

verus! {

/// The column that a field is mapped to: its type and the two converters.
#[derive(Clone, Debug, PartialEq, Eq)]
pub struct ColumnBinding {
    pub column_type: String,
    /// The converter that turns the field's value into the column's.
    pub from_converter: String,
    /// The converter that turns the column's value back into the field's.
    pub to_converter: String,
}

/// One field of a mirror type: it is mapped where it has a column.
#[derive(Clone, Debug, PartialEq, Eq)]
pub struct MirrorField {
    pub name: String,
    pub column: Option<ColumnBinding>,
}

/// The mirror type of a struct: it has the struct's fields, in the struct's
/// order, each of them optional.
#[derive(Clone, Debug, PartialEq, Eq)]
pub struct MirrorType {
    pub source_name: String,
    pub table_name: String,
    pub fields: Vec<MirrorField>,
}

/// A row of a mirror type: one optional value for each field.
#[derive(Clone, Debug, PartialEq, Eq)]
pub struct MirrorRow<C> {
    pub values: Vec<Option<C>>,
}

/// A column binding as contracts speak of it.
pub struct ColumnModel {
    pub column_type: Seq<char>,
    pub from_converter: Seq<char>,
    pub to_converter: Seq<char>,
}

/// A field of a mirror type as contracts speak of it.
pub struct MirrorFieldModel {
    pub name: Seq<char>,
    pub column: Option<ColumnModel>,
}

/// A mirror type as contracts speak of it.
pub struct MirrorModel {
    pub source_name: Seq<char>,
    pub table_name: Seq<char>,
    pub fields: Seq<MirrorFieldModel>,
}

impl View for ColumnBinding {
    type V = ColumnModel;

    open spec fn view(&self) -> ColumnModel {
        ColumnModel {
            column_type: self.column_type@,
            from_converter: self.from_converter@,
            to_converter: self.to_converter@,
        }
    }
}

impl View for MirrorField {
    type V = MirrorFieldModel;

    open spec fn view(&self) -> MirrorFieldModel {
        MirrorFieldModel {
            name: self.name@,
            column: match self.column {
                Some(column) => Some(column@),
                None => None,
            },
        }
    }
}

impl View for MirrorType {
    type V = MirrorModel;

    open spec fn view(&self) -> MirrorModel {
        MirrorModel {
            source_name: self.source_name@,
            table_name: self.table_name@,
            fields: Seq::new(self.fields@.len(), |i: int| self.fields@[i]@),
        }
    }
}

impl MirrorModel {
    /// The names of the fields, in order.
    pub open spec fn field_names(self) -> Seq<Seq<char>> {
        Seq::new(self.fields.len(), |i: int| self.fields[i].name)
    }

    /// Field `i` has a column.
    pub open spec fn is_mapped(self, i: int) -> bool {
        0 <= i < self.fields.len() && self.fields[i].column is Some
    }
}

/// The name that the table directive of a type gives to its mirror.
pub open spec fn table_name_of(directives: Seq<Directive>) -> Seq<char> {
    let k = choose|k: int| first_of(directives, TypeLevel::Table, k);
    match directives[k] {
        Directive::Table(table) => table.table_name@,
        _ => Seq::empty(),
    }
}

/// The column that the directives give to the field `field`, if any.
pub open spec fn column_for(directives: Seq<Directive>, field: Seq<char>) -> Option<ColumnModel> {
    if unannotated(directives, FieldLevel::Column, field) {
        None
    } else {
        let k = choose|k: int| first_for(directives, FieldLevel::Column, field, k);
        match directives[k] {
            Directive::Column(column) => Some(
                ColumnModel {
                    column_type: column.column_type@,
                    from_converter: column.from_converter@,
                    to_converter: column.to_converter@,
                },
            ),
            _ => None,
        }
    }
}

/// The mirror type of a struct that carries one table directive: every field
/// of the struct, with the column that its directive gives it.
pub open spec fn mirror_of(decl: TypeDeclaration, directives: Seq<Directive>) -> MirrorModel {
    MirrorModel {
        source_name: decl.name_text(),
        table_name: table_name_of(directives),
        fields: Seq::new(
            decl.field_decls().len(),
            |i: int|
                MirrorFieldModel {
                    name: decl.field_decls()[i].name@,
                    column: column_for(directives, decl.field_decls()[i].name@),
                },
        ),
    }
}

/// The error with which mirror synthesis refuses a declaration, if it does:
/// an enum; else a missing or repeated table directive; else a column
/// directive on an undeclared field; else a field with several column
/// directives.
pub open spec fn mirror_refusal(decl: TypeDeclaration, directives: Seq<Directive>) -> Option<
    SchemaErrorModel,
> {
    if struct_refusal(Synthesizer::AsTable, decl) is Some {
        struct_refusal(Synthesizer::AsTable, decl)
    } else if type_refusal(Synthesizer::AsTable, decl.name_text(), directives, TypeLevel::Table)
        is Some {
        type_refusal(Synthesizer::AsTable, decl.name_text(), directives, TypeLevel::Table)
    } else {
        field_refusal(
            Synthesizer::AsTable,
            decl.name_text(),
            decl.field_decls(),
            directives,
            FieldLevel::Column,
        )
    }
}

/// Builds the mirror type of a struct from its table directive and its
/// column directives. A field without a column directive stays in the mirror
/// and is never filled. Refused are: an enum, a struct without a table
/// directive or with several, a column directive that names no field of the
/// struct, and a field with several column directives.
pub fn as_table_derive_macro(decl: &TypeDeclaration, directives: &Vec<Directive>) -> (outcome: Result<
    MirrorType,
    SchemaError,
>)
    ensures
        outcome is Err <==> mirror_refusal(*decl, directives@) is Some,
        outcome matches Err(error) ==> Some(error@) == mirror_refusal(*decl, directives@),
        outcome matches Ok(mirror) ==> mirror@ == mirror_of(*decl, directives@),
        outcome matches Ok(mirror) ==> mirror@.field_names() == decl.field_names(),
{
    let fields = match struct_fields(Synthesizer::AsTable, decl) {
        Ok(fields) => fields,
        Err(error) => {
            return Err(error);
        },
    };
    let owner = decl.name();
    let table = match type_directive(Synthesizer::AsTable, owner, directives, TypeLevel::Table) {
        Ok(table) => table,
        Err(error) => {
            return Err(error);
        },
    };
    let slots = match field_directives(
        Synthesizer::AsTable,
        owner,
        fields,
        directives,
        FieldLevel::Column,
    ) {
        Ok(slots) => slots,
        Err(error) => {
            return Err(error);
        },
    };
    proof {
        let k = choose|k: int| first_of(directives@, TypeLevel::Table, k);
        lemma_first_of_unique(directives@, TypeLevel::Table, table as int, k);
    }
    let table_name = match &directives[table] {
        Directive::Table(table) => table.table_name.clone(),
        _ => String::new(),
    };
    let mut mirrored: Vec<MirrorField> = Vec::new();
    let mut i: usize = 0;
    while i < fields.len()
        invariant
            i <= fields.len(),
            mirrored.len() == i,
            slots.len() == fields.len(),
            fields@ == decl.field_decls(),
            forall|j: int|
                0 <= j < fields.len() ==> slot_of(
                    directives@,
                    FieldLevel::Column,
                    fields@[j].name@,
                    #[trigger] slots@[j],
                ),
            forall|j: int|
                0 <= j < i ==> (#[trigger] mirrored@[j])@ == (MirrorFieldModel {
                    name: fields@[j].name@,
                    column: column_for(directives@, fields@[j].name@),
                }),
        decreases fields.len() - i,
    {
        let field = &fields[i];
        let column = match slots[i] {
            Some(k) => {
                proof {
                    let first = choose|first: int|
                        first_for(directives@, FieldLevel::Column, field.name@, first);
                    lemma_first_for_unique(
                        directives@,
                        FieldLevel::Column,
                        field.name@,
                        k as int,
                        first,
                    );
                }
                match &directives[k] {
                    Directive::Column(column) => Some(
                        ColumnBinding {
                            column_type: column.column_type.clone(),
                            from_converter: column.from_converter.clone(),
                            to_converter: column.to_converter.clone(),
                        },
                    ),
                    _ => None,
                }
            },
            None => None,
        };
        mirrored.push(MirrorField { name: field.name.clone(), column });
        i += 1;
    }
    let mirror = MirrorType { source_name: owner.clone(), table_name, fields: mirrored };
    assert(mirror@.fields =~= mirror_of(*decl, directives@).fields);
    assert(mirror@.field_names() =~= decl.field_names());
    Ok(mirror)
}

/// The entries that the first `n` fields of a row are written as: a present
/// field under its name with its value, an absent one not at all.
pub open spec fn entries_of<C>(names: Seq<Seq<char>>, values: Seq<Option<C>>, n: nat) -> Seq<
    (Seq<char>, C),
>
    decreases n,
{
    if n == 0 {
        Seq::empty()
    } else {
        let before = entries_of(names, values, (n - 1) as nat);
        match values[n - 1] {
            Some(value) => before.push((names[n - 1], value)),
            None => before,
        }
    }
}

impl MirrorType {
    /// Field `i` has a column.
    pub open spec fn is_mapped(self, i: int) -> bool {
        0 <= i < self.fields.len() && self.fields[i].column is Some
    }

    /// `row` is what converting `source` gives: a mapped field holds what
    /// its converter made of the source's value, and any other field is
    /// absent.
    pub open spec fn mirrors<V, C, F: Fn(&String, &V) -> C>(
        self,
        convert: F,
        source: Seq<V>,
        row: Seq<Option<C>>,
    ) -> bool {
        &&& row.len() == self.fields.len()
        &&& forall|i: int|
            0 <= i < self.fields.len() ==> match self.fields[i].column {
                Some(column) => (#[trigger] row[i]) matches Some(value) && call_ensures(
                    convert,
                    (&column.from_converter, &source[i]),
                    value,
                ),
                None => row[i] is None,
            }
    }

    /// `restored` is what converting `row` back gives: a mapped field that
    /// is present in the row holds what its converter made of the row's
    /// value, and any other field holds its default.
    pub open spec fn restores<V, C, G: Fn(&String, &C) -> V>(
        self,
        convert: G,
        row: Seq<Option<C>>,
        defaults: Seq<V>,
        restored: Seq<V>,
    ) -> bool {
        &&& restored.len() == self.fields.len()
        &&& forall|i: int|
            0 <= i < self.fields.len() ==> match (self.fields[i].column, row[i]) {
                (Some(column), Some(value)) => call_ensures(
                    convert,
                    (&column.to_converter, &value),
                    #[trigger] restored[i],
                ),
                _ => restored[i] == defaults[i],
            }
    }

    /// The source's converter may be called on the value of every mapped
    /// field of `source`.
    pub open spec fn convertible<V, C, F: Fn(&String, &V) -> C>(self, convert: F, source: Seq<V>) -> bool {
        forall|i: int|
            0 <= i < self.fields.len() ==> match (#[trigger] self.fields[i]).column {
                Some(column) => call_requires(convert, (&column.from_converter, &source[i])),
                None => true,
            }
    }

    /// The mirror's converter may be called on every value of `row` that is
    /// present in a mapped field.
    pub open spec fn restorable<V, C, G: Fn(&String, &C) -> V>(
        self,
        convert: G,
        row: Seq<Option<C>>,
    ) -> bool {
        forall|i: int|
            0 <= i < self.fields.len() ==> match ((#[trigger] self.fields[i]).column, row[i]) {
                (Some(column), Some(value)) => call_requires(convert, (&column.to_converter, &value)),
                _ => true,
            }
    }

    /// Converts a value of the struct, given as the values of its fields in
    /// declaration order, to a row of the mirror: `convert` is called with
    /// the name of a mapped field's converter and the field's value, and
    /// what it returns is present in the row; a field without a column is
    /// absent.
    pub fn to_mirror<V, C, F: Fn(&String, &V) -> C>(&self, source: &Vec<V>, convert: F) -> (row:
        MirrorRow<C>)
        requires
            source.len() == self.fields.len(),
            self.convertible(convert, source@),
        ensures
            self.mirrors(convert, source@, row.values@),
            forall|i: int|
                0 <= i < self.fields.len() ==> ((#[trigger] row.values@[i]) is Some
                    <==> self.is_mapped(i)),
    {
        let mut values: Vec<Option<C>> = Vec::new();
        let mut i: usize = 0;
        while i < self.fields.len()
            invariant
                i <= self.fields.len(),
                values.len() == i,
                source.len() == self.fields.len(),
                self.convertible(convert, source@),
                forall|j: int|
                    0 <= j < i ==> match self.fields[j].column {
                        Some(column) => (#[trigger] values@[j]) matches Some(value) && call_ensures(
                            convert,
                            (&column.from_converter, &source@[j]),
                            value,
                        ),
                        None => values@[j] is None,
                    },
            decreases self.fields.len() - i,
        {
            assert(self.fields[i as int].column is Some ==> call_requires(
                convert,
                (&self.fields[i as int].column->0.from_converter, &source@[i as int]),
            ));
            let value = match &self.fields[i].column {
                Some(column) => Some(convert(&column.from_converter, &source[i])),
                None => None,
            };
            values.push(value);
            i += 1;
        }
        MirrorRow { values }
    }

    /// Converts a row of the mirror back to a value of the struct, starting
    /// from the struct's default value: `convert` is called with the name of
    /// a mapped field's converter and the row's value where that is present;
    /// every other field keeps its default. Never fails.
    pub fn from_mirror<V, C, G: Fn(&String, &C) -> V>(
        &self,
        row: &MirrorRow<C>,
        defaults: Vec<V>,
        convert: G,
    ) -> (restored: Vec<V>)
        requires
            row.values.len() == self.fields.len(),
            defaults.len() == self.fields.len(),
            self.restorable(convert, row.values@),
        ensures
            self.restores(convert, row.values@, defaults@, restored@),
    {
        let mut restored = defaults;
        let mut i: usize = 0;
        while i < self.fields.len()
            invariant
                i <= self.fields.len(),
                restored.len() == self.fields.len(),
                row.values.len() == self.fields.len(),
                defaults.len() == self.fields.len(),
                self.restorable(convert, row.values@),
                forall|j: int| i <= j < self.fields.len() ==> restored@[j] == defaults@[j],
                forall|j: int|
                    0 <= j < i ==> match (self.fields[j].column, row.values@[j]) {
                        (Some(column), Some(value)) => call_ensures(
                            convert,
                            (&column.to_converter, &value),
                            #[trigger] restored@[j],
                        ),
                        _ => restored@[j] == defaults@[j],
                    },
            decreases self.fields.len() - i,
        {
            assert(self.fields[i as int].column is Some && row.values@[i as int] is Some
                ==> call_requires(
                convert,
                (&self.fields[i as int].column->0.to_converter, &row.values@[i as int]->0),
            ));
            match (&self.fields[i].column, &row.values[i]) {
                (Some(column), Some(value)) => {
                    restored[i] = convert(&column.to_converter, value);
                },
                _ => {},
            }
            i += 1;
        }
        restored
    }

    /// What a row is written as when it is serialized: the fields that are
    /// present, in order, each under its name; an absent field is left out.
    pub fn present_entries<'a, C>(&'a self, row: &'a MirrorRow<C>) -> (entries: Vec<(&'a str, &'a C)>)
        requires
            row.values.len() == self.fields.len(),
        ensures
            Seq::new(entries@.len(), |k: int| (entries@[k].0@, *entries@[k].1)) == entries_of(
                self@.field_names(),
                row.values@,
                self.fields.len() as nat,
            ),
    {
        let mut entries: Vec<(&'a str, &'a C)> = Vec::new();
        let mut i: usize = 0;
        while i < self.fields.len()
            invariant
                i <= self.fields.len(),
                row.values.len() == self.fields.len(),
                Seq::new(entries@.len(), |k: int| (entries@[k].0@, *entries@[k].1)) == entries_of(
                    self@.field_names(),
                    row.values@,
                    i as nat,
                ),
            decreases self.fields.len() - i,
        {
            let ghost before = Seq::new(entries@.len(), |k: int| (entries@[k].0@, *entries@[k].1));
            match &row.values[i] {
                Some(value) => {
                    entries.push((self.fields[i].name.as_str(), value));
                    assert(Seq::new(entries@.len(), |k: int| (entries@[k].0@, *entries@[k].1))
                        =~= before.push((self@.field_names()[i as int], *value)));
                },
                None => {},
            }
            i += 1;
        }
        entries
    }
}

impl<C> MirrorRow<C> {
    /// Converts the row on to any type that can be made from it.
    pub fn to<T: From<MirrorRow<C>>>(self) -> (target: T)
        ensures
            call_ensures(T::from, (self,), target),
    {
        T::from(self)
    }
}

/// The converter `back` undoes the converter `forth` on every mapped field:
/// whatever `forth` makes of a value, `back` makes that value of it again.
pub open spec fn undoes<V, C, F: Fn(&String, &V) -> C, G: Fn(&String, &C) -> V>(
    mirror: MirrorType,
    forth: F,
    back: G,
) -> bool {
    forall|i: int, before: V, column: C, after: V|
        mirror.is_mapped(i) && #[trigger] call_ensures(
            forth,
            (&mirror.fields[i].column->0.from_converter, &before),
            column,
        ) && #[trigger] call_ensures(back, (&mirror.fields[i].column->0.to_converter, &column), after)
            ==> after == before
}

/// Round trip through the mirror: where the converter back undoes the
/// converter forth, converting a value to a row and the row back gives the
/// value again on every mapped field, and the default on every other field.
pub proof fn law_mirror_round_trip<V, C, F: Fn(&String, &V) -> C, G: Fn(&String, &C) -> V>(
    mirror: MirrorType,
    forth: F,
    back: G,
    source: Seq<V>,
    row: Seq<Option<C>>,
    defaults: Seq<V>,
    restored: Seq<V>,
)
    requires
        undoes(mirror, forth, back),
        mirror.mirrors(forth, source, row),
        mirror.restores(back, row, defaults, restored),
    ensures
        restored.len() == mirror.fields.len(),
        forall|i: int|
            0 <= i < mirror.fields.len() ==> #[trigger] restored[i] == if mirror.is_mapped(i) {
                source[i]
            } else {
                defaults[i]
            },
{
    assert forall|i: int| 0 <= i < mirror.fields.len() implies #[trigger] restored[i] == if mirror.is_mapped(
        i,
    ) {
        source[i]
    } else {
        defaults[i]
    } by {
        if mirror.is_mapped(i) {
            let column = mirror.fields[i].column->0;
            assert(row[i] is Some);
            let value = row[i]->0;
            assert(call_ensures(forth, (&column.from_converter, &source[i]), value));
            assert(call_ensures(back, (&column.to_converter, &value), restored[i]));
        }
    }
}

/// Optionality of the mirror: in the row that a value converts to, a field
/// is present where a column directive names it, and absent where none does.
pub proof fn law_mirror_optionality<V, C, F: Fn(&String, &V) -> C>(
    decl: TypeDeclaration,
    directives: Seq<Directive>,
    mirror: MirrorType,
    convert: F,
    source: Seq<V>,
    row: Seq<Option<C>>,
)
    requires
        mirror@ == mirror_of(decl, directives),
        mirror.mirrors(convert, source, row),
    ensures
        row.len() == decl.field_decls().len(),
        forall|i: int|
            0 <= i < decl.field_decls().len() ==> ((#[trigger] row[i]) is None <==> unannotated(
                directives,
                FieldLevel::Column,
                decl.field_decls()[i].name@,
            )),
{
    assert(mirror@.fields.len() == mirror_of(decl, directives).fields.len());
    assert forall|i: int| 0 <= i < decl.field_decls().len() implies ((#[trigger] row[i]) is None
        <==> unannotated(directives, FieldLevel::Column, decl.field_decls()[i].name@)) by {
        let field = decl.field_decls()[i].name@;
        assert(mirror@.fields[i] == mirror_of(decl, directives).fields[i]);
        assert(mirror@.fields[i] == mirror.fields@[i]@);
        assert(mirror@.fields[i].column == column_for(directives, field));
        if !unannotated(directives, FieldLevel::Column, field) {
            let k = choose|k: int|
                0 <= k < directives.len() && (#[trigger] directives[k]).annotates(
                    FieldLevel::Column,
                    field,
                );
            lemma_annotated_has_first(directives, FieldLevel::Column, field, k);
            let first = choose|first: int| first_for(directives, FieldLevel::Column, field, first);
            assert(directives[first] is Column);
        }
    }
}

/// Where some directive up to position `k` annotates a field, one of them
/// is the first.
proof fn lemma_annotated_has_first(
    directives: Seq<Directive>,
    level: FieldLevel,
    field: Seq<char>,
    k: int,
)
    requires
        0 <= k < directives.len(),
        directives[k].annotates(level, field),
    ensures
        exists|first: int| first_for(directives, level, field, first),
    decreases k,
{
    if exists|j: int| 0 <= j < k && (#[trigger] directives[j]).annotates(level, field) {
        let j = choose|j: int| 0 <= j < k && (#[trigger] directives[j]).annotates(level, field);
        lemma_annotated_has_first(directives, level, field, j);
    } else {
        assert(first_for(directives, level, field, k));
    }
}

} // verus!
