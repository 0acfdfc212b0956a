//! Table schemas: data types, struct fields and struct types, with their mathematical
//! models.

use vstd::prelude::*;

verus! {

/// The primitive column types.
#[derive(Clone, Copy, Debug, PartialEq, Eq, Structural)]
pub enum PrimitiveType {
    String,
    Long,
    Integer,
    Short,
    Byte,
    Float,
    Double,
    Boolean,
    Binary,
    Date,
    Timestamp,
    TimestampNtz,
    Decimal(u8, u8),
}

/// A column type.
#[derive(Debug, PartialEq, Eq)]
pub enum DataType {
    Primitive(PrimitiveType),
    Array(Box<ArrayType>),
    Struct(Box<StructType>),
    MapOf(Box<MapType>),
}

/// An array type.
#[derive(Debug, PartialEq, Eq)]
pub struct ArrayType {
    pub element_type: DataType,
    pub contains_null: bool,
}

/// A map type.
#[derive(Debug, PartialEq, Eq)]
pub struct MapType {
    pub key_type: DataType,
    pub value_type: DataType,
    pub value_contains_null: bool,
}

/// A struct type: named fields in order.
#[derive(Debug, PartialEq, Eq)]
pub struct StructType {
    pub fields: Vec<StructField>,
}

/// A field of a struct type.
#[derive(Debug, PartialEq, Eq)]
pub struct StructField {
    pub name: String,
    pub data_type: DataType,
    pub nullable: bool,
    pub metadata: Metadata,
}

/// A value of field metadata.
#[derive(Debug, PartialEq, Eq)]
pub enum MetadataValue {
    Number(i64),
    String(String),
    Boolean(bool),
}

/// One key and value of field metadata.
#[derive(Debug, PartialEq, Eq)]
pub struct MetadataItem {
    pub key: String,
    pub value: MetadataValue,
}

/// The metadata of a field. Where a key occurs more than once, the last item counts.
#[derive(Debug, PartialEq, Eq)]
pub struct Metadata {
    pub items: Vec<MetadataItem>,
}

/// The model of a [`MetadataValue`].
pub ghost enum MetadataModel {
    Number(i64),
    String(Seq<char>),
    Boolean(bool),
}

/// The model of a [`DataType`].
#[verifier::ext_equal]
pub ghost enum TypeModel {
    Primitive(PrimitiveType),
    Array(Box<TypeModel>, bool),
    Struct(Seq<FieldModel>),
    MapOf(Box<TypeModel>, Box<TypeModel>, bool),
}

/// The model of a [`StructField`].
#[verifier::ext_equal]
pub ghost struct FieldModel {
    pub name: Seq<char>,
    pub data_type: TypeModel,
    pub nullable: bool,
    pub metadata: Map<Seq<char>, MetadataModel>,
}

impl View for MetadataValue {
    type V = MetadataModel;

    open spec fn view(&self) -> MetadataModel {
        match self {
            MetadataValue::Number(n) => MetadataModel::Number(*n),
            MetadataValue::String(s) => MetadataModel::String(s@),
            MetadataValue::Boolean(b) => MetadataModel::Boolean(*b),
        }
    }
}

/// The map that a list of metadata items stands for.
pub open spec fn metadata_map(items: Seq<MetadataItem>) -> Map<Seq<char>, MetadataModel>
    decreases items.len(),
{
    if items.len() == 0 {
        Map::empty()
    } else {
        metadata_map(items.drop_last()).insert(items.last().key@, items.last().value@)
    }
}

impl View for Metadata {
    type V = Map<Seq<char>, MetadataModel>;

    open spec fn view(&self) -> Map<Seq<char>, MetadataModel> {
        metadata_map(self.items@)
    }
}

impl DataType {
    /// The model of the type.
    pub open spec fn view(&self) -> TypeModel
        decreases self,
    {
        match self {
            DataType::Primitive(p) => TypeModel::Primitive(*p),
            DataType::Array(a) => TypeModel::Array(
                Box::new(a.element_type.view()),
                a.contains_null,
            ),
            DataType::Struct(s) => TypeModel::Struct((**s).view()),
            DataType::MapOf(m) => TypeModel::MapOf(
                Box::new(m.key_type.view()),
                Box::new(m.value_type.view()),
                m.value_contains_null,
            ),
        }
    }
}

impl StructType {
    /// The models of the fields, in order.
    pub open spec fn view(&self) -> Seq<FieldModel>
        decreases self,
    {
        Seq::new(
            self.fields@.len(),
            |i: int|
                if 0 <= i < self.fields@.len() {
                    self.fields@[i].view()
                } else {
                    arbitrary()
                },
        )
    }
}

impl StructField {
    /// The model of the field.
    pub open spec fn view(&self) -> FieldModel
        decreases self,
    {
        FieldModel {
            name: self.name@,
            data_type: self.data_type.view(),
            nullable: self.nullable,
            metadata: self.metadata@,
        }
    }
}

impl View for DataType {
    type V = TypeModel;

    open spec fn view(&self) -> TypeModel {
        DataType::view(self)
    }
}

impl View for StructType {
    type V = Seq<FieldModel>;

    open spec fn view(&self) -> Seq<FieldModel> {
        StructType::view(self)
    }
}

impl View for StructField {
    type V = FieldModel;

    open spec fn view(&self) -> FieldModel {
        StructField::view(self)
    }
}

/// The models of a list of fields.
pub open spec fn field_models(fields: Seq<StructField>) -> Seq<FieldModel> {
    Seq::new(fields.len(), |i: int| fields[i].view())
}

/// The primitive string type.
pub open spec fn string_type() -> TypeModel {
    TypeModel::Primitive(PrimitiveType::String)
}

/// The primitive 64-bit integer type.
pub open spec fn long_type() -> TypeModel {
    TypeModel::Primitive(PrimitiveType::Long)
}

/// The primitive 32-bit integer type.
pub open spec fn integer_type() -> TypeModel {
    TypeModel::Primitive(PrimitiveType::Integer)
}

/// The primitive boolean type.
pub open spec fn boolean_type() -> TypeModel {
    TypeModel::Primitive(PrimitiveType::Boolean)
}

/// The primitive binary type.
pub open spec fn binary_type() -> TypeModel {
    TypeModel::Primitive(PrimitiveType::Binary)
}

/// The type of a map from strings to strings that may be null.
pub open spec fn string_map_type() -> TypeModel {
    TypeModel::MapOf(Box::new(string_type()), Box::new(string_type()), true)
}

/// The struct type with the given fields: of fields with one name, the last one stays, at
/// the place of the first.
pub open spec fn struct_type(fields: Seq<FieldModel>) -> TypeModel {
    TypeModel::Struct(distinct_fields(fields))
}

/// A field that may be null, without metadata.
pub open spec fn nullable_field(name: Seq<char>, data_type: TypeModel) -> FieldModel {
    FieldModel { name, data_type, nullable: true, metadata: Map::empty() }
}

/// A field that is never null, without metadata.
pub open spec fn required_field(name: Seq<char>, data_type: TypeModel) -> FieldModel {
    FieldModel { name, data_type, nullable: false, metadata: Map::empty() }
}

/// The index at or after `from` of the first field called `name`, `fields.len()` where
/// there is none.
pub open spec fn field_index(fields: Seq<FieldModel>, name: Seq<char>, from: int) -> int
    decreases fields.len() - from,
{
    if from < 0 || from >= fields.len() {
        fields.len() as int
    } else if fields[from].name == name {
        from
    } else {
        field_index(fields, name, from + 1)
    }
}

/// The field called `name`.
pub open spec fn find_field(fields: Seq<FieldModel>, name: Seq<char>) -> Option<FieldModel> {
    let i = field_index(fields, name, 0);
    if i < fields.len() {
        Some(fields[i])
    } else {
        None
    }
}

/// `fields` with `field` put in: in place of the field of that name, else at the end.
pub open spec fn put_field(fields: Seq<FieldModel>, field: FieldModel) -> Seq<FieldModel> {
    let i = field_index(fields, field.name, 0);
    if i < fields.len() {
        fields.update(i, field)
    } else {
        fields.push(field)
    }
}

/// The fields of a struct type made from a list of fields.
pub open spec fn distinct_fields(fields: Seq<FieldModel>) -> Seq<FieldModel>
    decreases fields.len(),
{
    if fields.len() == 0 {
        Seq::empty()
    } else {
        put_field(distinct_fields(fields.drop_last()), fields.last())
    }
}

/// A field index lies between where the search started and the number of fields.
pub proof fn lemma_field_index_bounds(fields: Seq<FieldModel>, name: Seq<char>, from: int)
    requires
        0 <= from <= fields.len(),
    ensures
        from <= field_index(fields, name, from) <= fields.len(),
        field_index(fields, name, from) < fields.len() ==> fields[field_index(
            fields,
            name,
            from,
        )].name == name,
        forall|j: int|
            from <= j < field_index(fields, name, from) ==> (#[trigger] fields[j]).name != name,
    decreases fields.len() - from,
{
    if from < fields.len() && fields[from].name != name {
        lemma_field_index_bounds(fields, name, from + 1);
    }
}

impl Clone for MetadataValue {
    fn clone(&self) -> (copy: Self)
        ensures
            copy@ == self@,
    {
        match self {
            MetadataValue::Number(n) => MetadataValue::Number(*n),
            MetadataValue::String(s) => MetadataValue::String(s.clone()),
            MetadataValue::Boolean(b) => MetadataValue::Boolean(*b),
        }
    }
}

impl Metadata {
    /// Metadata without items.
    pub fn new() -> (metadata: Metadata)
        ensures
            metadata@ == Map::<Seq<char>, MetadataModel>::empty(),
    {
        Metadata { items: Vec::new() }
    }

    /// Sets `key` to `value`.
    pub fn set(&mut self, key: &str, value: MetadataValue)
        ensures
            final(self)@ == old(self)@.insert(key@, value@),
    {
        self.items.push(MetadataItem { key: key.to_owned(), value });
        assert(self.items@.drop_last() =~= old(self).items@);
    }

    /// The value of `key`.
    pub fn get(&self, key: &str) -> (value: Option<&MetadataValue>)
        ensures
            match value {
                Some(v) => self@.contains_key(key@) && v@ == self@[key@],
                None => !self@.contains_key(key@),
            },
    {
        let wanted = key.to_owned();
        let mut i: usize = self.items.len();
        assert(self.items@.take(i as int) =~= self.items@);
        while i > 0
            invariant
                i <= self.items@.len(),
                wanted@ == key@,
                self@.contains_key(key@) == metadata_map(self.items@.take(i as int)).contains_key(
                    key@,
                ),
                self@.contains_key(key@) ==> self@[key@] == metadata_map(
                    self.items@.take(i as int),
                )[key@],
            decreases i,
        {
            i -= 1;
            assert(self.items@.take(i + 1).drop_last() =~= self.items@.take(i as int));
            if self.items[i].key == wanted {
                return Some(&self.items[i].value);
            }
        }
        assert(self.items@.take(0) =~= Seq::<MetadataItem>::empty());
        None
    }
}

impl Clone for Metadata {
    fn clone(&self) -> (copy: Self)
        ensures
            copy@ == self@,
    {
        let mut copy = Metadata::new();
        let mut i: usize = 0;
        assert(self.items@.take(0) =~= Seq::<MetadataItem>::empty());
        while i < self.items.len()
            invariant
                i <= self.items@.len(),
                copy@ == metadata_map(self.items@.take(i as int)),
            decreases self.items@.len() - i,
        {
            copy.set(self.items[i].key.as_str(), self.items[i].value.clone());
            assert(self.items@.take(i + 1).drop_last() =~= self.items@.take(i as int));
            i += 1;
        }
        assert(self.items@.take(i as int) =~= self.items@);
        copy
    }
}

impl Clone for DataType {
    fn clone(&self) -> (copy: Self)
        ensures
            copy.view() == self.view(),
        decreases self,
    {
        match self {
            DataType::Primitive(p) => DataType::Primitive(*p),
            DataType::Array(a) => DataType::Array(
                Box::new(
                    ArrayType {
                        element_type: a.element_type.clone(),
                        contains_null: a.contains_null,
                    },
                ),
            ),
            DataType::Struct(s) => DataType::Struct(Box::new((**s).clone())),
            DataType::MapOf(m) => DataType::MapOf(
                Box::new(
                    MapType {
                        key_type: m.key_type.clone(),
                        value_type: m.value_type.clone(),
                        value_contains_null: m.value_contains_null,
                    },
                ),
            ),
        }
    }
}

impl Clone for StructType {
    fn clone(&self) -> (copy: Self)
        ensures
            copy.view() == self.view(),
        decreases self,
    {
        let mut fields: Vec<StructField> = Vec::new();
        let mut i: usize = 0;
        while i < self.fields.len()
            invariant
                i <= self.fields@.len(),
                fields@.len() == i,
                forall|j: int|
                    0 <= j < i ==> (#[trigger] fields@[j]).view() == self.fields@[j].view(),
            decreases self.fields@.len() - i,
        {
            fields.push(self.fields[i].clone());
            i += 1;
        }
        let copy = StructType { fields };
        assert(copy.view() =~= self.view());
        copy
    }
}

impl Clone for StructField {
    fn clone(&self) -> (copy: Self)
        ensures
            copy.view() == self.view(),
        decreases self,
    {
        StructField {
            name: self.name.clone(),
            data_type: self.data_type.clone(),
            nullable: self.nullable,
            metadata: self.metadata.clone(),
        }
    }
}

impl DataType {
    /// The string type.
    pub fn string() -> (data_type: DataType)
        ensures
            data_type.view() == string_type(),
    {
        DataType::Primitive(PrimitiveType::String)
    }

    /// The 64-bit integer type.
    pub fn long() -> (data_type: DataType)
        ensures
            data_type.view() == long_type(),
    {
        DataType::Primitive(PrimitiveType::Long)
    }

    /// The 32-bit integer type.
    pub fn integer() -> (data_type: DataType)
        ensures
            data_type.view() == integer_type(),
    {
        DataType::Primitive(PrimitiveType::Integer)
    }

    /// The boolean type.
    pub fn boolean() -> (data_type: DataType)
        ensures
            data_type.view() == boolean_type(),
    {
        DataType::Primitive(PrimitiveType::Boolean)
    }

    /// The binary type.
    pub fn binary() -> (data_type: DataType)
        ensures
            data_type.view() == binary_type(),
    {
        DataType::Primitive(PrimitiveType::Binary)
    }

    /// The type of a map from strings to strings that may be null.
    pub fn string_map() -> (data_type: DataType)
        ensures
            data_type.view() == string_map_type(),
    {
        DataType::MapOf(
            Box::new(
                MapType {
                    key_type: DataType::string(),
                    value_type: DataType::string(),
                    value_contains_null: true,
                },
            ),
        )
    }

    /// The type of the values of a struct type.
    pub fn structure(of: StructType) -> (data_type: DataType)
        ensures
            data_type.view() == TypeModel::Struct(of.view()),
    {
        DataType::Struct(Box::new(of))
    }
}

impl StructField {
    /// A field that may be null, without metadata.
    pub fn nullable(name: &str, data_type: DataType) -> (field: StructField)
        ensures
            field.view() == nullable_field(name@, data_type.view()),
    {
        StructField {
            name: name.to_owned(),
            data_type,
            nullable: true,
            metadata: Metadata::new(),
        }
    }

    /// A field that is never null, without metadata.
    pub fn not_null(name: &str, data_type: DataType) -> (field: StructField)
        ensures
            field.view() == required_field(name@, data_type.view()),
    {
        StructField {
            name: name.to_owned(),
            data_type,
            nullable: false,
            metadata: Metadata::new(),
        }
    }

    /// The field with metadata `key` set to `value`.
    pub fn add_metadata(self, key: &str, value: MetadataValue) -> (field: StructField)
        ensures
            field.view() == (FieldModel {
                metadata: self.view().metadata.insert(key@, value@),
                ..self.view()
            }),
    {
        let mut metadata = self.metadata;
        metadata.set(key, value);
        StructField {
            name: self.name,
            data_type: self.data_type,
            nullable: self.nullable,
            metadata,
        }
    }
}

/// A list of fields under construction.
#[derive(Debug)]
pub struct FieldList {
    pub items: Vec<StructField>,
}

impl View for FieldList {
    type V = Seq<FieldModel>;

    open spec fn view(&self) -> Seq<FieldModel> {
        field_models(self.items@)
    }
}

impl FieldList {
    /// A list without fields.
    pub fn new() -> (list: FieldList)
        ensures
            list@ == Seq::<FieldModel>::empty(),
    {
        FieldList { items: Vec::new() }
    }

    /// The list with `field` at its end.
    pub fn with(self, field: StructField) -> (list: FieldList)
        ensures
            list@ == self@.push(field.view()),
    {
        let mut items = self.items;
        items.push(field);
        let list = FieldList { items };
        assert(list@ =~= self@.push(field.view()));
        list
    }

    /// The list with copies of all fields of a struct type at its end.
    pub fn with_all(self, fields: &StructType) -> (list: FieldList)
        ensures
            list@ == self@ + fields.view(),
    {
        let mut list = self;
        let mut i: usize = 0;
        assert(list@ =~= self@ + fields.view().take(0));
        while i < fields.fields.len()
            invariant
                i <= fields.fields@.len(),
                list@ == self@ + fields.view().take(i as int),
            decreases fields.fields@.len() - i,
        {
            list = list.with(fields.fields[i].clone());
            i += 1;
            assert(list@ =~= self@ + fields.view().take(i as int));
        }
        assert(fields.view().take(i as int) =~= fields.view());
        list
    }
}

impl StructType {
    /// A struct type with the given fields. Of fields with one name the last one stays, at
    /// the place of the first.
    pub fn new_unchecked(fields: FieldList) -> (made: StructType)
        ensures
            made.view() == distinct_fields(fields@),
    {
        let FieldList { items } = fields;
        let mut made = StructType { fields: Vec::new() };
        let mut i: usize = 0;
        assert(made.view() =~= distinct_fields(fields@.take(0)));
        while i < items.len()
            invariant
                i <= items@.len(),
                fields@ == field_models(items@),
                made.view() == distinct_fields(fields@.take(i as int)),
            decreases items@.len() - i,
        {
            let ghost before = made.view();
            let field = items[i].clone();
            let at = made.index_of(field.name.as_str());
            proof {
                lemma_field_index_bounds(before, field.view().name, 0);
            }
            if at < made.fields.len() {
                made.fields[at] = field;
                assert(made.view() =~= before.update(at as int, field.view()));
            } else {
                made.fields.push(field);
                assert(made.view() =~= before.push(field.view()));
            }
            assert(fields@.take(i + 1).drop_last() =~= fields@.take(i as int));
            i += 1;
        }
        assert(fields@.take(i as int) =~= fields@);
        made
    }

    /// The index of the field called `name`, the number of fields where there is none.
    pub fn index_of(&self, name: &str) -> (index: usize)
        ensures
            index == field_index(self.view(), name@, 0),
    {
        let wanted = name.to_owned();
        let mut i: usize = 0;
        while i < self.fields.len()
            invariant
                i <= self.fields@.len(),
                wanted@ == name@,
                field_index(self.view(), name@, 0) == field_index(self.view(), name@, i as int),
            decreases self.fields@.len() - i,
        {
            if self.fields[i].name == wanted {
                return i;
            }
            i += 1;
        }
        i
    }

    /// The field called `name`.
    pub fn field(&self, name: &str) -> (field: Option<&StructField>)
        ensures
            match field {
                Some(f) => find_field(self.view(), name@) == Some(f.view()),
                None => find_field(self.view(), name@) is None,
            },
    {
        let at = self.index_of(name);
        proof {
            lemma_field_index_bounds(self.view(), name@, 0);
        }
        if at < self.fields.len() {
            Some(&self.fields[at])
        } else {
            None
        }
    }
}

} // verus!
