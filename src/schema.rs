//! The typed model of tables, columns and relationships, and its construction
//! from raw catalog rows.

use vstd::prelude::*;

verus! {

/// The closed classification of a column's value domain.
#[derive(Debug, PartialEq, Eq)]
pub enum SemanticType {
    Boolean,
    Integer32,
    Integer64,
    Text,
    ByteArray,
    Json,
    Timestamp,
    Enumeration(Vec<String>),
    ArrayOf(Box<SemanticType>),
}

/// Mathematical counterpart of `SemanticType`.
pub enum TypeModel {
    Boolean,
    Integer32,
    Integer64,
    Text,
    ByteArray,
    Json,
    Timestamp,
    Enumeration(Seq<Seq<char>>),
    ArrayOf(Box<TypeModel>),
}

pub open spec fn strings_view(v: Seq<String>) -> Seq<Seq<char>> {
    v.map_values(|s: String| s@)
}

pub open spec fn type_model(t: SemanticType) -> TypeModel
    decreases t,
{
    match t {
        SemanticType::Boolean => TypeModel::Boolean,
        SemanticType::Integer32 => TypeModel::Integer32,
        SemanticType::Integer64 => TypeModel::Integer64,
        SemanticType::Text => TypeModel::Text,
        SemanticType::ByteArray => TypeModel::ByteArray,
        SemanticType::Json => TypeModel::Json,
        SemanticType::Timestamp => TypeModel::Timestamp,
        SemanticType::Enumeration(labels) => TypeModel::Enumeration(strings_view(labels@)),
        SemanticType::ArrayOf(e) => TypeModel::ArrayOf(Box::new(type_model(*e))),
    }
}

impl View for SemanticType {
    type V = TypeModel;

    open spec fn view(&self) -> TypeModel {
        type_model(*self)
    }
}

/// `s` and the literal `lit` hold the same characters.
pub fn text_is(s: &String, lit: &str) -> (r: bool)
    ensures
        r == (s@ == lit@),
{
    let t = lit.to_owned();
    *s == t
}


/// One row of the catalog's column listing.
#[derive(Debug, PartialEq, Eq)]
pub struct CatalogColumn {
    pub table: String,
    pub column: String,
    /// The catalog's nullability flag, `"YES"` for a nullable column.
    pub is_nullable: String,
    /// The column's default expression, if it has one.
    pub default: Option<String>,
    /// The declared category: `"USER-DEFINED"`, `"ARRAY"` or another data type name.
    pub data_type: String,
    /// The concrete type name (`int4`, `_text`, an enumeration's name, ...).
    pub udt_name: String,
}

/// One row of the catalog's constraint listing.
#[derive(Debug, PartialEq, Eq)]
pub struct CatalogConstraint {
    pub name: String,
    /// `"PRIMARY KEY"`, `"FOREIGN KEY"` or another constraint kind.
    pub kind: String,
    pub table: String,
    pub column: String,
    pub referenced_table: String,
    pub referenced_column: String,
}

/// One label of an enumeration type, listed in declaration order.
#[derive(Debug, PartialEq, Eq)]
pub struct EnumLabel {
    pub enum_name: String,
    pub label: String,
}

/// The labels of enumeration `udt`, in catalog order.
pub open spec fn labels_for(udt: Seq<char>, rows: Seq<EnumLabel>) -> Seq<Seq<char>>
    decreases rows.len(),
{
    if rows.len() == 0 {
        seq![]
    } else {
        let prev = labels_for(udt, rows.drop_last());
        if rows.last().enum_name@ == udt {
            prev.push(rows.last().label@)
        } else {
            prev
        }
    }
}

/// The semantic type of a catalog column, or `None` for an unsupported one.
pub open spec fn catalog_type(data_type: Seq<char>, udt: Seq<char>, rows: Seq<EnumLabel>) -> Option<TypeModel> {
    if data_type == "USER-DEFINED"@ {
        Some(TypeModel::Enumeration(labels_for(udt, rows)))
    } else if data_type == "ARRAY"@ {
        if udt == "_text"@ {
            Some(TypeModel::ArrayOf(Box::new(TypeModel::Text)))
        } else {
            None
        }
    } else if udt == "bool"@ {
        Some(TypeModel::Boolean)
    } else if udt == "int4"@ {
        Some(TypeModel::Integer32)
    } else if udt == "int8"@ {
        Some(TypeModel::Integer64)
    } else if udt == "text"@ || udt == "varchar"@ {
        Some(TypeModel::Text)
    } else if udt == "bytea"@ {
        Some(TypeModel::ByteArray)
    } else if udt == "jsonb"@ {
        Some(TypeModel::Json)
    } else if udt == "timestamp"@ || udt == "timestamptz"@ {
        Some(TypeModel::Timestamp)
    } else {
        None
    }
}

/// Collects the labels of enumeration `udt` in catalog order.
fn enum_labels(udt: &String, rows: &Vec<EnumLabel>) -> (r: Vec<String>)
    ensures
        strings_view(r@) == labels_for(udt@, rows@),
{
    let mut r: Vec<String> = Vec::new();
    let mut i: usize = 0;
    while i < rows.len()
        invariant
            i <= rows@.len(),
            strings_view(r@) == labels_for(udt@, rows@.take(i as int)),
        decreases rows@.len() - i,
    {
        assert(rows@.take(i + 1).drop_last() == rows@.take(i as int));
        if rows[i].enum_name == *udt {
            r.push(rows[i].label.clone());
        }
        assert(strings_view(r@) =~= labels_for(udt@, rows@.take(i + 1)));
        i = i + 1;
    }
    assert(rows@.take(rows@.len() as int) == rows@);
    r
}

/// Maps a catalog column's category and type name to its semantic type.
pub fn map_catalog_type(data_type: &String, udt: &String, rows: &Vec<EnumLabel>) -> (r: Option<SemanticType>)
    ensures
        r is Some <==> catalog_type(data_type@, udt@, rows@) is Some,
        r is Some ==> r->0@ == catalog_type(data_type@, udt@, rows@)->0,
{
    if text_is(data_type, "USER-DEFINED") {
        Some(SemanticType::Enumeration(enum_labels(udt, rows)))
    } else if text_is(data_type, "ARRAY") {
        if text_is(udt, "_text") {
            let r = SemanticType::ArrayOf(Box::new(SemanticType::Text));
            assert(type_model(SemanticType::Text) == TypeModel::Text);
            Some(r)
        } else {
            None
        }
    } else if text_is(udt, "bool") {
        Some(SemanticType::Boolean)
    } else if text_is(udt, "int4") {
        Some(SemanticType::Integer32)
    } else if text_is(udt, "int8") {
        Some(SemanticType::Integer64)
    } else if text_is(udt, "text") || text_is(udt, "varchar") {
        Some(SemanticType::Text)
    } else if text_is(udt, "bytea") {
        Some(SemanticType::ByteArray)
    } else if text_is(udt, "jsonb") {
        Some(SemanticType::Json)
    } else if text_is(udt, "timestamp") || text_is(udt, "timestamptz") {
        Some(SemanticType::Timestamp)
    } else {
        None
    }
}


/// A column of the model.
#[derive(Debug, PartialEq, Eq)]
pub struct Column {
    pub name: String,
    pub value_type: SemanticType,
    pub nullable: bool,
    pub has_default: bool,
    pub primary_key: bool,
    /// The referenced (table, column), if the column is a foreign key.
    pub foreign_key: Option<(String, String)>,
}

pub struct ColumnModel {
    pub name: Seq<char>,
    pub ty: TypeModel,
    pub nullable: bool,
    pub has_default: bool,
    pub primary_key: bool,
    pub foreign_key: Option<(Seq<char>, Seq<char>)>,
}

impl View for Column {
    type V = ColumnModel;

    open spec fn view(&self) -> ColumnModel {
        ColumnModel {
            name: self.name@,
            ty: self.value_type@,
            nullable: self.nullable,
            has_default: self.has_default,
            primary_key: self.primary_key,
            foreign_key: match self.foreign_key {
                Some(fk) => Some((fk.0@, fk.1@)),
                None => None,
            },
        }
    }
}

/// A table of the model: its columns in creation order.
#[derive(Debug, PartialEq, Eq)]
pub struct Table {
    pub name: String,
    pub columns: Vec<Column>,
}

pub struct TableModel {
    pub name: Seq<char>,
    pub columns: Seq<ColumnModel>,
}

impl View for Table {
    type V = TableModel;

    open spec fn view(&self) -> TableModel {
        TableModel { name: self.name@, columns: self.columns@.map_values(|c: Column| c@) }
    }
}

/// The model of a database: its tables in catalog order.
#[derive(Debug, PartialEq, Eq)]
pub struct Database {
    pub tables: Vec<Table>,
}

pub struct DatabaseModel {
    pub tables: Seq<TableModel>,
}

impl View for Database {
    type V = DatabaseModel;

    open spec fn view(&self) -> DatabaseModel {
        DatabaseModel { tables: self.tables@.map_values(|t: Table| t@) }
    }
}

/// Why a catalog snapshot cannot be turned into a model.
#[derive(Debug, PartialEq, Eq)]
pub enum ModelError {
    /// The column's declared category and type name map to no semantic type.
    UnsupportedType { table: String, column: String, data_type: String, udt_name: String },
    /// More than one foreign-key constraint names the column.
    AmbiguousForeignKey { table: String, column: String },
}

pub enum ModelErrorModel {
    UnsupportedType { table: Seq<char>, column: Seq<char>, data_type: Seq<char>, udt_name: Seq<char> },
    AmbiguousForeignKey { table: Seq<char>, column: Seq<char> },
}

impl View for ModelError {
    type V = ModelErrorModel;

    open spec fn view(&self) -> ModelErrorModel {
        match self {
            ModelError::UnsupportedType { table, column, data_type, udt_name } =>
                ModelErrorModel::UnsupportedType {
                    table: table@,
                    column: column@,
                    data_type: data_type@,
                    udt_name: udt_name@,
                },
            ModelError::AmbiguousForeignKey { table, column } =>
                ModelErrorModel::AmbiguousForeignKey { table: table@, column: column@ },
        }
    }
}

pub open spec fn names_column(k: CatalogConstraint, table: Seq<char>, column: Seq<char>) -> bool {
    k.table@ == table && k.column@ == column
}

/// Some primary-key constraint names the column.
pub open spec fn is_primary(cons: Seq<CatalogConstraint>, table: Seq<char>, column: Seq<char>) -> bool {
    exists|i: int|
        0 <= i < cons.len() && names_column(#[trigger] cons[i], table, column) && cons[i].kind@
            == "PRIMARY KEY"@
}

/// The (referenced table, referenced column) of every foreign-key constraint
/// naming the column, in catalog order.
pub open spec fn foreign_refs(cons: Seq<CatalogConstraint>, table: Seq<char>, column: Seq<char>) -> Seq<(Seq<char>, Seq<char>)>
    decreases cons.len(),
{
    if cons.len() == 0 {
        seq![]
    } else {
        let prev = foreign_refs(cons.drop_last(), table, column);
        let k = cons.last();
        if names_column(k, table, column) && k.kind@ == "FOREIGN KEY"@ {
            prev.push((k.referenced_table@, k.referenced_column@))
        } else {
            prev
        }
    }
}

/// The model of one catalog column, or the error that it raises.
pub open spec fn column_model(c: CatalogColumn, cons: Seq<CatalogConstraint>, rows: Seq<EnumLabel>) -> Result<ColumnModel, ModelErrorModel> {
    match catalog_type(c.data_type@, c.udt_name@, rows) {
        None => Err(
            ModelErrorModel::UnsupportedType {
                table: c.table@,
                column: c.column@,
                data_type: c.data_type@,
                udt_name: c.udt_name@,
            },
        ),
        Some(ty) => {
            let fks = foreign_refs(cons, c.table@, c.column@);
            if fks.len() > 1 {
                Err(ModelErrorModel::AmbiguousForeignKey { table: c.table@, column: c.column@ })
            } else {
                Ok(
                    ColumnModel {
                        name: c.column@,
                        ty,
                        nullable: c.is_nullable@ == "YES"@,
                        has_default: c.default is Some,
                        primary_key: is_primary(cons, c.table@, c.column@),
                        foreign_key: if fks.len() == 1 {
                            Some(fks[0])
                        } else {
                            None
                        },
                    },
                )
            }
        },
    }
}

/// The models of all catalog columns in order, or the first column's error.
pub open spec fn column_models(cols: Seq<CatalogColumn>, cons: Seq<CatalogConstraint>, rows: Seq<EnumLabel>) -> Result<Seq<ColumnModel>, ModelErrorModel>
    decreases cols.len(),
{
    if cols.len() == 0 {
        Ok(seq![])
    } else {
        match column_models(cols.drop_last(), cons, rows) {
            Err(e) => Err(e),
            Ok(ms) => match column_model(cols.last(), cons, rows) {
                Err(e) => Err(e),
                Ok(m) => Ok(ms.push(m)),
            },
        }
    }
}

/// The models `ms[i]` of the catalog columns `cols[i]` that belong to `table`, in order.
pub open spec fn columns_of(table: Seq<char>, cols: Seq<CatalogColumn>, ms: Seq<ColumnModel>) -> Seq<ColumnModel>
    decreases cols.len(),
{
    if cols.len() == 0 || ms.len() == 0 {
        seq![]
    } else {
        let prev = columns_of(table, cols.drop_last(), ms.drop_last());
        if cols.last().table@ == table {
            prev.push(ms.last())
        } else {
            prev
        }
    }
}

pub open spec fn has_table(tables: Seq<String>, name: Seq<char>) -> bool {
    exists|k: int| 0 <= k < tables.len() && (#[trigger] tables[k])@ == name
}

/// The (table, column) of each catalog column whose table is not listed, in order.
pub open spec fn dropped_columns(tables: Seq<String>, cols: Seq<CatalogColumn>) -> Seq<(Seq<char>, Seq<char>)>
    decreases cols.len(),
{
    if cols.len() == 0 {
        seq![]
    } else {
        let prev = dropped_columns(tables, cols.drop_last());
        if has_table(tables, cols.last().table@) {
            prev
        } else {
            prev.push((cols.last().table@, cols.last().column@))
        }
    }
}

/// The model built from a catalog snapshot: one table per listed name, each
/// holding the columns that name it in catalog order; or the first column's error.
pub open spec fn database_model(
    tables: Seq<String>,
    cols: Seq<CatalogColumn>,
    cons: Seq<CatalogConstraint>,
    rows: Seq<EnumLabel>,
) -> Result<DatabaseModel, ModelErrorModel> {
    match column_models(cols, cons, rows) {
        Err(e) => Err(e),
        Ok(ms) => Ok(
            DatabaseModel {
                tables: Seq::new(
                    tables.len(),
                    |i: int| TableModel { name: tables[i]@, columns: columns_of(tables[i]@, cols, ms) },
                ),
            },
        ),
    }
}


proof fn lemma_strings_view_push(a: Seq<String>, x: String)
    ensures
        strings_view(a.push(x)) == strings_view(a).push(x@),
{
    assert(strings_view(a.push(x)) =~= strings_view(a).push(x@));
}

proof fn lemma_map_push<A, B>(a: Seq<A>, x: A, f: spec_fn(A) -> B)
    ensures
        a.push(x).map_values(f) == a.map_values(f).push(f(x)),
{
    assert(a.push(x).map_values(f) =~= a.map_values(f).push(f(x)));
}

/// A copy of each string of `v`.
pub fn copy_strings(v: &Vec<String>) -> (r: Vec<String>)
    ensures
        strings_view(r@) == strings_view(v@),
{
    let mut r: Vec<String> = Vec::new();
    let mut i: usize = 0;
    while i < v.len()
        invariant
            i <= v@.len(),
            strings_view(r@) =~= strings_view(v@.take(i as int)),
        decreases v@.len() - i,
    {
        let s = v[i].clone();
        assert(s@ == v@[i as int]@);
        let ghost before = r@;
        r.push(s);
        assert(r@ == before.push(s));
        assert(v@.take(i + 1) =~= v@.take(i as int).push(v@[i as int]));
        proof {
            lemma_strings_view_push(before, s);
            lemma_strings_view_push(v@.take(i as int), v@[i as int]);
        }
        assert(strings_view(r@) =~= strings_view(v@.take(i + 1)));
        i = i + 1;
    }
    assert(v@.take(v@.len() as int) == v@);
    r
}

impl SemanticType {
    pub fn duplicate(&self) -> (r: SemanticType)
        ensures
            r@ == self@,
        decreases self,
    {
        match self {
            SemanticType::Boolean => SemanticType::Boolean,
            SemanticType::Integer32 => SemanticType::Integer32,
            SemanticType::Integer64 => SemanticType::Integer64,
            SemanticType::Text => SemanticType::Text,
            SemanticType::ByteArray => SemanticType::ByteArray,
            SemanticType::Json => SemanticType::Json,
            SemanticType::Timestamp => SemanticType::Timestamp,
            SemanticType::Enumeration(labels) => SemanticType::Enumeration(copy_strings(labels)),
            SemanticType::ArrayOf(e) => {
                let inner = (**e).duplicate();
                SemanticType::ArrayOf(Box::new(inner))
            },
        }
    }
}

impl Column {
    pub fn duplicate(&self) -> (r: Column)
        ensures
            r@ == self@,
    {
        Column {
            name: self.name.clone(),
            value_type: self.value_type.duplicate(),
            nullable: self.nullable,
            has_default: self.has_default,
            primary_key: self.primary_key,
            foreign_key: match &self.foreign_key {
                Some(fk) => Some((fk.0.clone(), fk.1.clone())),
                None => None,
            },
        }
    }
}

/// Folds the constraints that name one catalog column into its model.
pub fn model_column(c: &CatalogColumn, cons: &Vec<CatalogConstraint>, rows: &Vec<EnumLabel>) -> (r: Result<Column, ModelError>)
    ensures
        r is Ok <==> column_model(*c, cons@, rows@) is Ok,
        r is Ok ==> r->Ok_0@ == column_model(*c, cons@, rows@)->Ok_0,
        r is Err ==> r->Err_0@ == column_model(*c, cons@, rows@)->Err_0,
{
    let ty = match map_catalog_type(&c.data_type, &c.udt_name, rows) {
        Some(t) => t,
        None => {
            return Err(
                ModelError::UnsupportedType {
                    table: c.table.clone(),
                    column: c.column.clone(),
                    data_type: c.data_type.clone(),
                    udt_name: c.udt_name.clone(),
                },
            );
        },
    };
    let mut primary = false;
    let mut fks: Vec<(String, String)> = Vec::new();
    let ghost t = c.table@;
    let ghost col = c.column@;
    let mut i: usize = 0;
    while i < cons.len()
        invariant
            i <= cons@.len(),
            primary == is_primary(cons@.take(i as int), t, col),
            fks@.map_values(|p: (String, String)| (p.0@, p.1@)) =~= foreign_refs(
                cons@.take(i as int),
                t,
                col,
            ),
            t == c.table@,
            col == c.column@,
        decreases cons@.len() - i,
    {
        let k = &cons[i];
        assert(cons@.take(i + 1).drop_last() == cons@.take(i as int));
        assert(cons@.take(i + 1)[i as int] == cons@[i as int]);
        if k.table == c.table && k.column == c.column {
            if text_is(&k.kind, "PRIMARY KEY") {
                primary = true;
            }
            if text_is(&k.kind, "FOREIGN KEY") {
                fks.push((k.referenced_table.clone(), k.referenced_column.clone()));
            }
        }
        assert(primary == is_primary(cons@.take(i + 1), t, col)) by {
            if is_primary(cons@.take(i as int), t, col) {
                let j = choose|j: int|
                    0 <= j < i && names_column(#[trigger] cons@.take(i as int)[j], t, col)
                        && cons@.take(i as int)[j].kind@ == "PRIMARY KEY"@;
                assert(cons@.take(i + 1)[j] == cons@.take(i as int)[j]);
            }
            if is_primary(cons@.take(i + 1), t, col) {
                let j = choose|j: int|
                    0 <= j < i + 1 && names_column(#[trigger] cons@.take(i + 1)[j], t, col)
                        && cons@.take(i + 1)[j].kind@ == "PRIMARY KEY"@;
                if j < i {
                    assert(cons@.take(i + 1)[j] == cons@.take(i as int)[j]);
                }
            }
        }
        i = i + 1;
    }
    assert(cons@.take(cons@.len() as int) == cons@);
    if fks.len() > 1 {
        return Err(ModelError::AmbiguousForeignKey { table: c.table.clone(), column: c.column.clone() });
    }
    let foreign_key = if fks.len() == 1 {
        let fk = &fks[0];
        Some((fk.0.clone(), fk.1.clone()))
    } else {
        None
    };
    Ok(
        Column {
            name: c.column.clone(),
            value_type: ty,
            nullable: text_is(&c.is_nullable, "YES"),
            has_default: c.default.is_some(),
            primary_key: primary,
            foreign_key,
        },
    )
}


proof fn lemma_models_error_persists(
    cols: Seq<CatalogColumn>,
    cons: Seq<CatalogConstraint>,
    rows: Seq<EnumLabel>,
    k: int,
)
    requires
        0 <= k <= cols.len(),
        column_models(cols.take(k), cons, rows) is Err,
    ensures
        column_models(cols, cons, rows) == column_models(cols.take(k), cons, rows),
    decreases cols.len() - k,
{
    if k < cols.len() {
        assert(cols.take(k + 1).drop_last() == cols.take(k));
        lemma_models_error_persists(cols, cons, rows, k + 1);
    } else {
        assert(cols.take(k) == cols);
    }
}

proof fn lemma_models_len(cols: Seq<CatalogColumn>, cons: Seq<CatalogConstraint>, rows: Seq<EnumLabel>)
    requires
        column_models(cols, cons, rows) is Ok,
    ensures
        column_models(cols, cons, rows)->Ok_0.len() == cols.len(),
    decreases cols.len(),
{
    if cols.len() > 0 {
        lemma_models_len(cols.drop_last(), cons, rows);
    }
}

/// The model of all columns of `table`, taken from `models` (the models of `cols`, in order).
fn collect_columns(table: &String, cols: &Vec<CatalogColumn>, models: &Vec<Column>) -> (r: Vec<Column>)
    requires
        models@.len() == cols@.len(),
    ensures
        r@.map_values(|c: Column| c@) == columns_of(table@, cols@, models@.map_values(|c: Column| c@)),
{
    let ghost ms = models@.map_values(|c: Column| c@);
    let mut r: Vec<Column> = Vec::new();
    let mut j: usize = 0;
    while j < cols.len()
        invariant
            j <= cols@.len(),
            models@.len() == cols@.len(),
            ms == models@.map_values(|c: Column| c@),
            r@.map_values(|c: Column| c@) =~= columns_of(table@, cols@.take(j as int), ms.take(j as int)),
        decreases cols@.len() - j,
    {
        assert(cols@.take(j + 1).drop_last() == cols@.take(j as int));
        assert(ms.take(j + 1).drop_last() == ms.take(j as int));
        if cols[j].table == *table {
            let c = models[j].duplicate();
            r.push(c);
        }
        assert(r@.map_values(|c: Column| c@) =~= columns_of(table@, cols@.take(j + 1), ms.take(j + 1)));
        j = j + 1;
    }
    assert(cols@.take(cols@.len() as int) == cols@);
    assert(ms.take(ms.len() as int) == ms);
    r
}

/// Builds the model of a database from a catalog snapshot: the listed tables
/// in order, each with the columns that name it in catalog order. Fails on the
/// first column whose type is unsupported or that more than one foreign-key
/// constraint names.
pub fn build_database(
    tables: &Vec<String>,
    cols: &Vec<CatalogColumn>,
    cons: &Vec<CatalogConstraint>,
    rows: &Vec<EnumLabel>,
) -> (r: Result<Database, ModelError>)
    ensures
        r is Ok <==> database_model(tables@, cols@, cons@, rows@) is Ok,
        r is Ok ==> r->Ok_0@ == database_model(tables@, cols@, cons@, rows@)->Ok_0,
        r is Err ==> r->Err_0@ == database_model(tables@, cols@, cons@, rows@)->Err_0,
{
    let mut models: Vec<Column> = Vec::new();
    let mut i: usize = 0;
    while i < cols.len()
        invariant
            i <= cols@.len(),
            column_models(cols@.take(i as int), cons@, rows@) is Ok,
            models@.map_values(|c: Column| c@) =~= column_models(cols@.take(i as int), cons@, rows@)->Ok_0,
        decreases cols@.len() - i,
    {
        assert(cols@.take(i + 1).drop_last() == cols@.take(i as int));
        assert(cols@.take(i + 1).last() == cols@[i as int]);
        match model_column(&cols[i], cons, rows) {
            Ok(m) => {
                models.push(m);
            },
            Err(e) => {
                proof {
                    lemma_models_error_persists(cols@, cons@, rows@, i + 1);
                }
                return Err(e);
            },
        }
        i = i + 1;
    }
    assert(cols@.take(cols@.len() as int) == cols@);
    proof {
        lemma_models_len(cols@, cons@, rows@);
    }
    let ghost ms = models@.map_values(|c: Column| c@);
    let mut out: Vec<Table> = Vec::new();
    let mut t: usize = 0;
    while t < tables.len()
        invariant
            t <= tables@.len(),
            models@.len() == cols@.len(),
            ms == models@.map_values(|c: Column| c@),
            ms == column_models(cols@, cons@, rows@)->Ok_0,
            out@.len() == t,
            forall|k: int|
                0 <= k < t ==> (#[trigger] out@[k])@ == (TableModel {
                    name: tables@[k]@,
                    columns: columns_of(tables@[k]@, cols@, ms),
                }),
        decreases tables@.len() - t,
    {
        let columns = collect_columns(&tables[t], cols, &models);
        out.push(Table { name: tables[t].clone(), columns });
        t = t + 1;
    }
    let db = Database { tables: out };
    assert(db@.tables =~= database_model(tables@, cols@, cons@, rows@)->Ok_0.tables);
    Ok(db)
}

/// The (table, column) of each catalog column whose table is not listed, in
/// order: such columns are left out of the model.
pub fn unlisted_columns(tables: &Vec<String>, cols: &Vec<CatalogColumn>) -> (r: Vec<(String, String)>)
    ensures
        r@.map_values(|p: (String, String)| (p.0@, p.1@)) == dropped_columns(tables@, cols@),
{
    let mut r: Vec<(String, String)> = Vec::new();
    let mut j: usize = 0;
    while j < cols.len()
        invariant
            j <= cols@.len(),
            r@.map_values(|p: (String, String)| (p.0@, p.1@)) =~= dropped_columns(tables@, cols@.take(j as int)),
        decreases cols@.len() - j,
    {
        assert(cols@.take(j + 1).drop_last() == cols@.take(j as int));
        assert(cols@.take(j + 1).last() == cols@[j as int]);
        let mut found = false;
        let mut k: usize = 0;
        while k < tables.len()
            invariant
                k <= tables@.len(),
                j < cols@.len(),
                found == exists|m: int| 0 <= m < k && (#[trigger] tables@[m])@ == cols@[j as int].table@,
            decreases tables@.len() - k,
        {
            if tables[k] == cols[j].table {
                found = true;
            }
            k = k + 1;
        }
        if !found {
            r.push((cols[j].table.clone(), cols[j].column.clone()));
        }
        assert(r@.map_values(|p: (String, String)| (p.0@, p.1@)) =~= dropped_columns(tables@, cols@.take(j + 1)));
        j = j + 1;
    }
    assert(cols@.take(cols@.len() as int) == cols@);
    r
}


impl Database {
    /// The names of the tables, in order.
    pub fn table_names(&self) -> (r: Vec<String>)
        ensures
            strings_view(r@) == self@.tables.map_values(|t: TableModel| t.name),
    {
        let mut r: Vec<String> = Vec::new();
        let mut i: usize = 0;
        while i < self.tables.len()
            invariant
                i <= self.tables@.len(),
                strings_view(r@) =~= self@.tables.take(i as int).map_values(|t: TableModel| t.name),
            decreases self.tables@.len() - i,
        {
            let ghost before = r@;
            let n = self.tables[i].name.clone();
            r.push(n);
            proof {
                let tm = self@.tables;
                lemma_strings_view_push(before, n);
                assert(tm.take(i + 1) =~= tm.take(i as int).push(tm[i as int]));
                lemma_map_push(tm.take(i as int), tm[i as int], |t: TableModel| t.name);
            }
            i = i + 1;
        }
        assert(self@.tables.take(self.tables@.len() as int) =~= self@.tables);
        r
    }

    /// The first table called `name`, if any.
    pub fn find_table(&self, name: &String) -> (r: Option<&Table>)
        ensures
            r is Some <==> exists|i: int| 0 <= i < self.tables@.len() && (#[trigger] self.tables@[i]).name@ == name@,
            r is Some ==> r->0.name@ == name@ && exists|i: int|
                0 <= i < self.tables@.len() && (#[trigger] self.tables@[i]) == *r->0,
    {
        let mut i: usize = 0;
        while i < self.tables.len()
            invariant
                i <= self.tables@.len(),
                forall|j: int| 0 <= j < i ==> (#[trigger] self.tables@[j]).name@ != name@,
            decreases self.tables@.len() - i,
        {
            if self.tables[i].name == *name {
                return Some(&self.tables[i]);
            }
            i = i + 1;
        }
        None
    }
}

impl Table {
    /// The names of the columns, in creation order.
    pub fn column_names(&self) -> (r: Vec<String>)
        ensures
            strings_view(r@) == self@.columns.map_values(|c: ColumnModel| c.name),
    {
        let mut r: Vec<String> = Vec::new();
        let mut i: usize = 0;
        while i < self.columns.len()
            invariant
                i <= self.columns@.len(),
                strings_view(r@) =~= self@.columns.take(i as int).map_values(|c: ColumnModel| c.name),
            decreases self.columns@.len() - i,
        {
            let ghost before = r@;
            let n = self.columns[i].name.clone();
            r.push(n);
            proof {
                let cm = self@.columns;
                lemma_strings_view_push(before, n);
                assert(cm.take(i + 1) =~= cm.take(i as int).push(cm[i as int]));
                lemma_map_push(cm.take(i as int), cm[i as int], |c: ColumnModel| c.name);
            }
            i = i + 1;
        }
        assert(self@.columns.take(self.columns@.len() as int) =~= self@.columns);
        r
    }

    /// The first column called `name`, if any.
    pub fn find_column(&self, name: &String) -> (r: Option<&Column>)
        ensures
            r is Some <==> exists|i: int| 0 <= i < self.columns@.len() && (#[trigger] self.columns@[i]).name@ == name@,
            r is Some ==> r->0.name@ == name@ && exists|i: int|
                0 <= i < self.columns@.len() && (#[trigger] self.columns@[i]) == *r->0,
    {
        let mut i: usize = 0;
        while i < self.columns.len()
            invariant
                i <= self.columns@.len(),
                forall|j: int| 0 <= j < i ==> (#[trigger] self.columns@[j]).name@ != name@,
            decreases self.columns@.len() - i,
        {
            if self.columns[i].name == *name {
                return Some(&self.columns[i]);
            }
            i = i + 1;
        }
        None
    }
}

/// Building the model twice from one unchanged catalog snapshot gives the same
/// model: the same tables in the same order, each with the same columns, in the
/// same order and with the same types and flags.
pub proof fn lemma_rebuild_identical(
    tables: Seq<String>,
    cols: Seq<CatalogColumn>,
    cons: Seq<CatalogConstraint>,
    rows: Seq<EnumLabel>,
    first: Database,
    second: Database,
)
    requires
        database_model(tables, cols, cons, rows) is Ok,
        first@ == database_model(tables, cols, cons, rows)->Ok_0,
        second@ == database_model(tables, cols, cons, rows)->Ok_0,
    ensures
        first@ == second@,
        first@.tables.len() == tables.len(),
        forall|i: int|
            0 <= i < tables.len() ==> (#[trigger] first@.tables[i]).name == tables[i]@
                && first@.tables[i].columns == second@.tables[i].columns,
{
}

proof fn lemma_refs_grow(cons: Seq<CatalogConstraint>, table: Seq<char>, column: Seq<char>, j: int, k: int)
    requires
        0 <= j <= k <= cons.len(),
    ensures
        foreign_refs(cons.take(j), table, column).len() <= foreign_refs(cons.take(k), table, column).len(),
    decreases k - j,
{
    if j < k {
        assert(cons.take(k).drop_last() == cons.take(k - 1));
        lemma_refs_grow(cons, table, column, j, k - 1);
    }
}

/// A column that two foreign-key constraint rows name makes the construction
/// of the model fail: it never picks one of the two.
pub proof fn lemma_ambiguous_key_fails(
    tables: Seq<String>,
    cols: Seq<CatalogColumn>,
    cons: Seq<CatalogConstraint>,
    rows: Seq<EnumLabel>,
    j: int,
    a: int,
    b: int,
)
    requires
        0 <= j < cols.len(),
        0 <= a < b < cons.len(),
        names_column(cons[a], cols[j].table@, cols[j].column@),
        names_column(cons[b], cols[j].table@, cols[j].column@),
        cons[a].kind@ == "FOREIGN KEY"@,
        cons[b].kind@ == "FOREIGN KEY"@,
    ensures
        database_model(tables, cols, cons, rows) is Err,
{
    let t = cols[j].table@;
    let c = cols[j].column@;
    assert(cons.take(a + 1).drop_last() == cons.take(a));
    assert(cons.take(b + 1).drop_last() == cons.take(b));
    lemma_refs_grow(cons, t, c, a + 1, b);
    lemma_refs_grow(cons, t, c, b + 1, cons.len() as int);
    assert(cons.take(cons.len() as int) == cons);
    assert(column_model(cols[j], cons, rows) is Err);
    assert(cols.take(j + 1).drop_last() == cols.take(j));
    assert(cols.take(j + 1).last() == cols[j]);
    assert(column_models(cols.take(j + 1), cons, rows) is Err);
    lemma_models_error_persists(cols, cons, rows, j + 1);
}

} // verus!
