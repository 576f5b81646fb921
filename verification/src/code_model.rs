//! The definitions of a program as the runtime's tools see them: modules,
//! functions and structs, each a key into a database of definitions.

use vstd::prelude::*;
use vstd::string::*;

verus! {

/// The name of a definition.
#[derive(Debug)]
pub struct Name {
    text: String,
}

impl View for Name {
    type V = Seq<char>;

    closed spec fn view(&self) -> Seq<char> {
        self.text@
    }
}

impl Name {
    /// The name with the given text.
    pub fn new(text: &str) -> (name: Name)
        ensures
            name@ == text@,
    {
        Name { text: String::from_str(text) }
    }

    /// The name that stands where the source has none.
    pub fn missing() -> (name: Name)
        ensures
            name@ == "[missing name]"@,
    {
        Name { text: String::from_str("[missing name]") }
    }

    /// The name of the field of a tuple struct at the given place: the
    /// number of the place, in decimal.
    pub fn new_tuple_field(index: usize) -> (name: Name)
        ensures
            name@ == decimal(index as nat),
    {
        Name { text: decimal_text(index) }
    }

    /// The text of the name.
    pub fn to_string(&self) -> (text: String)
        ensures
            text@ == self@,
    {
        self.text.clone()
    }

    /// A copy of the name.
    pub fn clone(&self) -> (name: Name)
        ensures
            name@ == self@,
    {
        Name { text: self.text.clone() }
    }

    /// Whether two names have the same text.
    pub fn same(&self, other: &Name) -> (b: bool)
        ensures
            b == (self@ == other@),
    {
        self.text == other.text
    }
}

/// The decimal digits of a number, most significant digit first.
pub open spec fn decimal(n: nat) -> Seq<char>
    decreases n,
{
    if n < 10 {
        seq![digit(n)]
    } else {
        decimal(n / 10).push(digit(n % 10))
    }
}

/// The character of a decimal digit.
pub open spec fn digit(d: nat) -> char {
    if d == 0 {
        '0'
    } else if d == 1 {
        '1'
    } else if d == 2 {
        '2'
    } else if d == 3 {
        '3'
    } else if d == 4 {
        '4'
    } else if d == 5 {
        '5'
    } else if d == 6 {
        '6'
    } else if d == 7 {
        '7'
    } else if d == 8 {
        '8'
    } else {
        '9'
    }
}

/// The text of a decimal digit.
fn digit_text(d: usize) -> (text: &'static str)
    requires
        d < 10,
    ensures
        text@ == seq![digit(d as nat)],
{
    proof {
        reveal_strlit("0");
        reveal_strlit("1");
        reveal_strlit("2");
        reveal_strlit("3");
        reveal_strlit("4");
        reveal_strlit("5");
        reveal_strlit("6");
        reveal_strlit("7");
        reveal_strlit("8");
        reveal_strlit("9");
    }
    let text = if d == 0 {
        "0"
    } else if d == 1 {
        "1"
    } else if d == 2 {
        "2"
    } else if d == 3 {
        "3"
    } else if d == 4 {
        "4"
    } else if d == 5 {
        "5"
    } else if d == 6 {
        "6"
    } else if d == 7 {
        "7"
    } else if d == 8 {
        "8"
    } else {
        "9"
    };
    assert(text@ =~= seq![digit(d as nat)]);
    text
}

/// The decimal text of a number.
fn decimal_text(n: usize) -> (text: String)
    ensures
        text@ == decimal(n as nat),
    decreases n,
{
    if n < 10 {
        String::from_str(digit_text(n))
    } else {
        let mut text = decimal_text(n / 10);
        text.append(digit_text(n % 10));
        assert(text@ =~= decimal(n as nat));
        text
    }
}

/// The file of a definition.
#[derive(Debug, Clone, Copy, PartialEq, Eq, Hash, Structural)]
pub struct FileId(pub u32);

/// A reference to a type in the source of a definition: its place in the
/// map of type references of the definition.
#[derive(Debug, Clone, Copy, PartialEq, Eq, Hash, Structural)]
pub struct LocalTypeRefId(pub usize);

/// A type as the source of a definition names it.
#[derive(Debug)]
pub enum TypeRef {
    /// The type with the given path.
    Path(String),
    /// The source names no type where it has to.
    Error,
}

/// The types that the source of a definition names, in the order in which
/// they occur.
#[derive(Debug)]
pub struct TypeRefMap {
    pub type_refs: Vec<TypeRef>,
}

/// Who may use a definition, as the source states it.
#[derive(Debug, Clone, Copy, PartialEq, Eq, Structural)]
pub enum RawVisibility {
    /// Everyone.
    Public,
    /// The module of the definition and what it contains.
    This,
}

/// How the values of a struct are stored.
#[derive(Debug, Clone, Copy, PartialEq, Eq, Structural)]
pub enum StructMemoryKind {
    /// Behind a handle of the garbage collector.
    Gc,
    /// In place.
    Value,
}

/// A struct's fields' data (record, tuple, or unit struct)
#[derive(Clone, Copy, Debug, PartialEq, Eq, Structural)]
pub enum StructKind {
    Record,
    Tuple,
    Unit,
}

impl StructKind {
    /// The kind in words.
    pub fn to_string(&self) -> (text: String)
        ensures
            text@ == match *self {
                StructKind::Record => "record"@,
                StructKind::Tuple => "tuple"@,
                StructKind::Unit => "unit struct"@,
            },
    {
        match self {
            StructKind::Record => String::from_str("record"),
            StructKind::Tuple => String::from_str("tuple"),
            StructKind::Unit => String::from_str("unit struct"),
        }
    }
}

/// A single field of a record or of a tuple struct.
#[derive(Debug)]
pub struct FieldData {
    pub name: Name,
    pub type_ref: LocalTypeRefId,
    pub visibility: RawVisibility,
}

/// What a struct's definition says.
#[derive(Debug)]
pub struct StructData {
    pub name: Name,
    pub visibility: RawVisibility,
    pub fields: Vec<FieldData>,
    pub kind: StructKind,
    pub memory_kind: StructMemoryKind,
    pub type_ref_map: TypeRefMap,
}

/// A field of a record struct as its source states it.
#[derive(Debug)]
pub struct RecordFieldSource {
    /// The name of the field, if the source has one.
    pub name: Option<Name>,
    /// The path of the type of the field, if the source has one.
    pub ascribed_type: Option<String>,
    pub visibility: RawVisibility,
}

/// A field of a tuple struct as its source states it.
#[derive(Debug)]
pub struct TupleFieldSource {
    /// The path of the type of the field, if the source has one.
    pub type_ref: Option<String>,
    pub visibility: RawVisibility,
}

/// The fields of a struct as its source states them.
#[derive(Debug)]
pub enum StructSourceKind {
    Record(Vec<RecordFieldSource>),
    Tuple(Vec<TupleFieldSource>),
    Unit,
}

/// The definition of a struct as its source states it.
#[derive(Debug)]
pub struct StructSource {
    pub name: Name,
    pub visibility: RawVisibility,
    /// How the values are stored, if the source says so.
    pub memory_kind: Option<StructMemoryKind>,
    pub kind: StructSourceKind,
}

/// The type reference that stands for what the source names.
pub open spec fn type_ref_of(path: Option<String>) -> TypeRef {
    match path {
        Some(path) => TypeRef::Path(path),
        None => TypeRef::Error,
    }
}

impl StructSource {
    /// The kind of the struct.
    pub open spec fn struct_kind(&self) -> StructKind {
        match self.kind {
            StructSourceKind::Record(_) => StructKind::Record,
            StructSourceKind::Tuple(_) => StructKind::Tuple,
            StructSourceKind::Unit => StructKind::Unit,
        }
    }

    /// The number of fields.
    pub open spec fn field_count(&self) -> nat {
        match self.kind {
            StructSourceKind::Record(fields) => fields@.len(),
            StructSourceKind::Tuple(fields) => fields@.len(),
            StructSourceKind::Unit => 0,
        }
    }

    /// The name of field number `i`: the name that the source gives a field
    /// of a record, or the name that stands for a missing one; the number of
    /// the field for a tuple struct.
    pub open spec fn field_name(&self, i: int) -> Seq<char> {
        match self.kind {
            StructSourceKind::Record(fields) => match fields@[i].name {
                Some(name) => name@,
                None => "[missing name]"@,
            },
            _ => decimal(i as nat),
        }
    }

    /// The type that the source names for field number `i`.
    pub open spec fn field_type(&self, i: int) -> TypeRef {
        match self.kind {
            StructSourceKind::Record(fields) => type_ref_of(fields@[i].ascribed_type),
            StructSourceKind::Tuple(fields) => type_ref_of(fields@[i].type_ref),
            StructSourceKind::Unit => TypeRef::Error,
        }
    }

    /// Who may use field number `i`.
    pub open spec fn field_visibility(&self, i: int) -> RawVisibility {
        match self.kind {
            StructSourceKind::Record(fields) => fields@[i].visibility,
            StructSourceKind::Tuple(fields) => fields@[i].visibility,
            StructSourceKind::Unit => RawVisibility::This,
        }
    }
}

/// The type reference that stands for what the source names.
fn type_ref_from(path: &Option<String>) -> (type_ref: TypeRef)
    ensures
        type_ref == type_ref_of(*path),
{
    match path {
        Some(path) => TypeRef::Path(path.clone()),
        None => TypeRef::Error,
    }
}

impl StructData {
    /// What the definition of a struct says, from its source: the fields in
    /// their order, each with its name and a reference to its type; the
    /// types that the fields name, in the same order; and how the values are
    /// stored, which is behind a handle where the source does not say.
    pub fn struct_data_query(source: &StructSource) -> (data: StructData)
        ensures
            data.name@ == source.name@,
            data.visibility == source.visibility,
            data.kind == source.struct_kind(),
            data.memory_kind == match source.memory_kind {
                Some(kind) => kind,
                None => StructMemoryKind::Gc,
            },
            data.fields@.len() == source.field_count(),
            data.type_ref_map.type_refs@.len() == source.field_count(),
            forall|i: int|
                0 <= i < source.field_count() ==> {
                    &&& (#[trigger] data.fields@[i]).name@ == source.field_name(i)
                    &&& data.fields@[i].type_ref == LocalTypeRefId(i as usize)
                    &&& data.fields@[i].visibility == source.field_visibility(i)
                    &&& data.type_ref_map.type_refs@[i] == source.field_type(i)
                },
    {
        let memory_kind = match source.memory_kind {
            Some(kind) => kind,
            None => StructMemoryKind::Gc,
        };
        let mut type_refs: Vec<TypeRef> = Vec::new();
        let mut fields: Vec<FieldData> = Vec::new();
        let kind = match &source.kind {
            StructSourceKind::Record(record) => {
                let mut i: usize = 0;
                while i < record.len()
                    invariant
                        0 <= i <= record@.len(),
                        source.kind == StructSourceKind::Record(*record),
                        fields@.len() == i,
                        type_refs@.len() == i,
                        forall|k: int|
                            0 <= k < i ==> {
                                &&& (#[trigger] fields@[k]).name@ == source.field_name(k)
                                &&& fields@[k].type_ref == LocalTypeRefId(k as usize)
                                &&& fields@[k].visibility == source.field_visibility(k)
                                &&& type_refs@[k] == source.field_type(k)
                            },
                    decreases record@.len() - i,
                {
                    let name = match &record[i].name {
                        Some(name) => name.clone(),
                        None => Name::missing(),
                    };
                    let type_ref = LocalTypeRefId(type_refs.len());
                    type_refs.push(type_ref_from(&record[i].ascribed_type));
                    fields.push(FieldData { name, type_ref, visibility: record[i].visibility });
                    i += 1;
                }
                StructKind::Record
            },
            StructSourceKind::Tuple(tuple) => {
                let mut i: usize = 0;
                while i < tuple.len()
                    invariant
                        0 <= i <= tuple@.len(),
                        source.kind == StructSourceKind::Tuple(*tuple),
                        fields@.len() == i,
                        type_refs@.len() == i,
                        forall|k: int|
                            0 <= k < i ==> {
                                &&& (#[trigger] fields@[k]).name@ == source.field_name(k)
                                &&& fields@[k].type_ref == LocalTypeRefId(k as usize)
                                &&& fields@[k].visibility == source.field_visibility(k)
                                &&& type_refs@[k] == source.field_type(k)
                            },
                    decreases tuple@.len() - i,
                {
                    let name = Name::new_tuple_field(i);
                    let type_ref = LocalTypeRefId(type_refs.len());
                    type_refs.push(type_ref_from(&tuple[i].type_ref));
                    fields.push(FieldData { name, type_ref, visibility: tuple[i].visibility });
                    i += 1;
                }
                StructKind::Tuple
            },
            StructSourceKind::Unit => StructKind::Unit,
        };
        StructData {
            name: source.name.clone(),
            visibility: source.visibility,
            fields,
            kind,
            memory_kind,
            type_ref_map: TypeRefMap { type_refs },
        }
    }

    /// The types that the definition names.
    pub fn type_ref_map(&self) -> (map: &TypeRefMap)
        ensures
            *map == self.type_ref_map,
    {
        &self.type_ref_map
    }
}

/// What the database knows of a module.
#[derive(Debug)]
pub struct ModuleData {
    /// The name of the module; the root module has none.
    pub name: Option<Name>,
    /// The module that contains this one, if it is not the root.
    pub parent: Option<Module>,
}

/// A module of the program.
#[derive(Debug, Clone, Copy, PartialEq, Eq, Hash, Structural)]
pub struct Module {
    id: usize,
}

/// A function of the program.
#[derive(Debug, Clone, Copy, PartialEq, Eq, Hash, Structural)]
pub struct Function {
    id: usize,
}

/// The key of a struct in the database.
#[derive(Debug, Clone, Copy, PartialEq, Eq, Hash, Structural)]
pub struct StructId(pub usize);

/// A struct of the program.
#[derive(Debug, Clone, Copy, PartialEq, Eq, Hash, Structural)]
pub struct Struct {
    id: StructId,
}

/// A field of a struct.
#[derive(Debug, Clone, Copy, PartialEq, Eq, Hash, Structural)]
pub struct Field {
    pub parent: Struct,
    pub id: usize,
}

/// Where a struct is defined, and what its definition says.
#[derive(Debug)]
pub struct StructLoc {
    pub module: Module,
    pub file_id: FileId,
    pub data: StructData,
}

/// The definitions of a program.
pub struct HirDatabase {
    modules: Vec<ModuleData>,
    functions: Vec<Module>,
    structs: Vec<StructLoc>,
}

impl Module {
    /// The number of the module in the database.
    pub closed spec fn index(self) -> int {
        self.id as int
    }

    /// The name of the module, if it has one.
    pub fn name(self, db: &HirDatabase) -> (name: Option<Name>)
        requires
            db.has_module(self),
        ensures
            name is Some == db.module_name(self) is Some,
            name is Some ==> name->Some_0@ == db.module_name(self)->Some_0,
    {
        match &db.modules[self.id].name {
            Some(name) => Some(name.clone()),
            None => None,
        }
    }

    /// The module that contains this one, if this is not the root.
    pub fn parent(self, db: &HirDatabase) -> (parent: Option<Module>)
        requires
            db.wf(),
            db.has_module(self),
        ensures
            parent == db.module_parent(self),
            parent is Some ==> db.has_module(parent->Some_0) && parent->Some_0.index()
                < self.index(),
    {
        db.modules[self.id].parent
    }

    /// The modules from this one up to the root, this one first.
    pub fn path_to_root(self, db: &HirDatabase) -> (path: Vec<Module>)
        requires
            db.wf(),
            db.has_module(self),
        ensures
            path@ == db.path_to_root(self),
            forall|i: int| 0 <= i < path@.len() ==> db.has_module(#[trigger] path@[i]),
    {
        let mut path: Vec<Module> = Vec::new();
        path.push(self);
        let mut current = self;
        loop
            invariant
                db.wf(),
                db.has_module(current),
                path@.len() > 0,
                path@.last() == current,
                path@.drop_last() + db.path_to_root(current) == db.path_to_root(self),
                forall|i: int| 0 <= i < path@.len() ==> db.has_module(#[trigger] path@[i]),
            decreases current.index(),
        {
            match current.parent(db) {
                Some(next) => {
                    let ghost before = path@;
                    path.push(next);
                    proof {
                        assert(path@.drop_last() =~= before);
                        assert(before =~= before.drop_last().push(current));
                        assert(db.path_to_root(current) =~= seq![current] + db.path_to_root(next));
                        assert(before.drop_last() + (seq![current] + db.path_to_root(next))
                            =~= before + db.path_to_root(next));
                    }
                    current = next;
                },
                None => {
                    proof {
                        assert(db.path_to_root(current) =~= seq![current]);
                        assert(path@ =~= path@.drop_last() + seq![current]);
                    }
                    return path;
                },
            }
        }
    }
}

impl Function {
    /// The module that defines the function.
    pub fn module(self, db: &HirDatabase) -> (module: Module)
        requires
            db.has_function(self),
        ensures
            module == db.function_module(self),
    {
        db.functions[self.id]
    }
}

impl HirDatabase {
    /// Whether the database holds the module.
    pub closed spec fn has_module(&self, module: Module) -> bool {
        module.id < self.modules@.len()
    }

    /// Whether the database holds the function.
    pub closed spec fn has_function(&self, function: Function) -> bool {
        function.id < self.functions@.len()
    }

    /// Whether the database holds the struct.
    pub closed spec fn has_struct(&self, s: Struct) -> bool {
        s.id.0 < self.structs@.len()
    }

    /// The name of a module, if it has one.
    pub closed spec fn module_name(&self, module: Module) -> Option<Seq<char>> {
        match self.modules@[module.id as int].name {
            Some(name) => Some(name@),
            None => None,
        }
    }

    /// The module that contains a module.
    pub closed spec fn module_parent(&self, module: Module) -> Option<Module> {
        self.modules@[module.id as int].parent
    }

    /// The module that defines a function.
    pub closed spec fn function_module(&self, function: Function) -> Module {
        self.functions@[function.id as int]
    }

    /// Where a struct is defined, and what its definition says.
    pub closed spec fn struct_loc(&self, s: Struct) -> StructLoc {
        self.structs@[s.id.0 as int]
    }

    /// Whether every definition lies in a module of the database, and every
    /// module but the root in a module that was there before it.
    pub closed spec fn wf(&self) -> bool {
        &&& forall|i: int|
            0 <= i < self.modules@.len() ==> match (#[trigger] self.modules@[i]).parent {
                Some(parent) => parent.id < i,
                None => true,
            }
        &&& forall|i: int| 0 <= i < self.functions@.len() ==> (#[trigger] self.functions@[i]).id
            < self.modules@.len()
        &&& forall|i: int| 0 <= i < self.structs@.len() ==> (#[trigger] self.structs@[i]).module.id
            < self.modules@.len()
    }

    /// The modules from `module` up to the root, `module` first.
    pub closed spec fn path_to_root(&self, module: Module) -> Seq<Module>
        decreases module.index(),
    {
        match self.modules@[module.id as int].parent {
            Some(parent) => if parent.id < module.id {
                seq![module] + self.path_to_root(parent)
            } else {
                seq![module]
            },
            None => seq![module],
        }
    }

    /// A database without definitions.
    pub fn new() -> (db: HirDatabase)
        ensures
            db.wf(),
            forall|m: Module| !db.has_module(m),
            forall|f: Function| !db.has_function(f),
            forall|s: Struct| !db.has_struct(s),
    {
        HirDatabase { modules: Vec::new(), functions: Vec::new(), structs: Vec::new() }
    }

    /// Adds a module. Its parent, if it has one, must be in the database.
    pub fn add_module(&mut self, name: Option<Name>, parent: Option<Module>) -> (module: Module)
        requires
            old(self).wf(),
            parent is Some ==> old(self).has_module(parent->Some_0),
        ensures
            final(self).wf(),
            final(self).has_module(module),
            final(self).module_parent(module) == parent,
            final(self).module_name(module) == match name {
                Some(n) => Some(n@),
                None => None,
            },
            forall|m: Module| #[trigger]
                old(self).has_module(m) ==> final(self).has_module(m) && final(self).module_parent(
                    m,
                ) == old(self).module_parent(m) && final(self).module_name(m) == old(self).module_name(m),
            forall|f: Function| #[trigger]
                old(self).has_function(f) ==> final(self).has_function(f) && final(self).function_module(f) == old(self).function_module(f),
            forall|s: Struct| #[trigger]
                old(self).has_struct(s) ==> final(self).has_struct(s) && final(self).struct_loc(s)
                    == old(self).struct_loc(s),
    {
        let id = self.modules.len();
        self.modules.push(ModuleData { name, parent });
        Module { id }
    }

    /// Adds a function to a module of the database.
    pub fn add_function(&mut self, module: Module) -> (function: Function)
        requires
            old(self).wf(),
            old(self).has_module(module),
        ensures
            final(self).wf(),
            final(self).has_function(function),
            final(self).function_module(function) == module,
            forall|m: Module| #[trigger]
                old(self).has_module(m) ==> final(self).has_module(m) && final(self).module_parent(
                    m,
                ) == old(self).module_parent(m) && final(self).module_name(m) == old(self).module_name(m),
            forall|f: Function| #[trigger]
                old(self).has_function(f) ==> final(self).has_function(f) && final(self).function_module(f) == old(self).function_module(f),
            forall|s: Struct| #[trigger]
                old(self).has_struct(s) ==> final(self).has_struct(s) && final(self).struct_loc(s)
                    == old(self).struct_loc(s),
    {
        let id = self.functions.len();
        self.functions.push(module);
        Function { id }
    }

    /// Adds a struct to a module of the database.
    pub fn add_struct(&mut self, module: Module, file_id: FileId, data: StructData) -> (s: Struct)
        requires
            old(self).wf(),
            old(self).has_module(module),
        ensures
            final(self).wf(),
            final(self).has_struct(s),
            final(self).struct_loc(s) == (StructLoc { module, file_id, data }),
            forall|m: Module| #[trigger]
                old(self).has_module(m) ==> final(self).has_module(m) && final(self).module_parent(
                    m,
                ) == old(self).module_parent(m) && final(self).module_name(m) == old(self).module_name(m),
            forall|f: Function| #[trigger]
                old(self).has_function(f) ==> final(self).has_function(f) && final(self).function_module(f) == old(self).function_module(f),
            forall|t: Struct| #[trigger]
                old(self).has_struct(t) ==> final(self).has_struct(t) && final(self).struct_loc(t)
                    == old(self).struct_loc(t),
    {
        let id = self.structs.len();
        self.structs.push(StructLoc { module, file_id, data });
        Struct { id: StructId(id) }
    }

    /// The data of a struct.
    pub fn struct_data(&self, id: StructId) -> (data: &StructData)
        requires
            self.has_struct(Struct::of(id)),
        ensures
            *data == self.struct_loc(Struct::of(id)).data,
    {
        &self.structs[id.0].data
    }
}

/// The texts of a list of strings.
pub open spec fn texts(strings: Seq<String>) -> Seq<Seq<char>> {
    Seq::new(strings.len(), |i: int| strings[i]@)
}

/// The parts with the separator between each two of them.
pub open spec fn interspersed(parts: Seq<Seq<char>>, separator: Seq<char>) -> Seq<Seq<char>> {
    Seq::new(
        if parts.len() == 0 {
            0
        } else {
            (2 * parts.len() - 1) as nat
        },
        |i: int|
            if i % 2 == 0 {
                parts[i / 2]
            } else {
                separator
            },
    )
}

/// Calls `Itertools::intersperse` of itertools, whose iterator yields the
/// items of the adapted iterator with a clone of the element between each two
/// of them, and collects what it yields.
#[verifier::external_body]
fn intersperse(parts: Vec<String>, separator: String) -> (r: Vec<String>)
    ensures
        texts(r@) == interspersed(texts(parts@), separator@),
{
    itertools::Itertools::intersperse(parts.into_iter(), separator).collect()
}

/// The first `n` texts, one after the other.
pub open spec fn concatenated(parts: Seq<Seq<char>>, n: int) -> Seq<char>
    decreases n,
{
    if n <= 0 {
        Seq::empty()
    } else {
        concatenated(parts, n - 1) + parts[n - 1]
    }
}

/// The names of the modules of a path that have one, in the order of the
/// path, for its first `n` modules.
pub open spec fn module_names(db: HirDatabase, path: Seq<Module>, n: int) -> Seq<Seq<char>>
    decreases n,
{
    if n <= 0 {
        Seq::empty()
    } else {
        match db.module_name(path[n - 1]) {
            Some(name) => module_names(db, path, n - 1).push(name),
            None => module_names(db, path, n - 1),
        }
    }
}

/// The full name of a struct with the given name in the given module: the
/// names of the modules from that module up to the root and then the name of
/// the struct, with `::` between each two of them.
pub open spec fn full_name_of(db: HirDatabase, module: Module, name: Seq<char>) -> Seq<char> {
    let path = db.path_to_root(module);
    let parts = interspersed(module_names(db, path, path.len() as int).push(name), "::"@);
    concatenated(parts, parts.len() as int)
}

impl Struct {
    /// The struct with the given key.
    pub closed spec fn of(id: StructId) -> Struct {
        Struct { id }
    }

    /// The key of the struct.
    pub closed spec fn key(self) -> StructId {
        self.id
    }

    /// The key of the struct.
    pub fn id(self) -> (id: StructId)
        ensures
            id == self.key(),
            Self::of(id) == self,
    {
        self.id
    }

    /// The struct with the given key.
    pub fn from(id: StructId) -> (s: Struct)
        ensures
            s == Self::of(id),
            s.key() == id,
    {
        Struct { id }
    }

    /// The module that defines the struct.
    pub fn module(self, db: &HirDatabase) -> (module: Module)
        requires
            db.wf(),
            db.has_struct(self),
        ensures
            module == db.struct_loc(self).module,
            db.has_module(module),
    {
        db.structs[self.id.0].module
    }

    /// The file that defines the struct.
    pub fn file_id(self, db: &HirDatabase) -> (file_id: FileId)
        requires
            db.has_struct(self),
        ensures
            file_id == db.struct_loc(self).file_id,
    {
        db.structs[self.id.0].file_id
    }

    /// What the definition of the struct says.
    pub fn data(self, db: &HirDatabase) -> (data: &StructData)
        requires
            db.has_struct(self),
        ensures
            *data == db.struct_loc(self).data,
    {
        db.struct_data(self.id)
    }

    /// Returns the name of the struct non including any module specifiers
    /// (e.g: `Bar`).
    pub fn name(self, db: &HirDatabase) -> (name: Name)
        requires
            db.has_struct(self),
        ensures
            name@ == db.struct_loc(self).data.name@,
    {
        self.data(db).name.clone()
    }

    /// Returns the full name of the struct including all module specifiers
    /// (e.g: `foo::Bar`).
    pub fn full_name(self, db: &HirDatabase) -> (full: String)
        requires
            db.wf(),
            db.has_struct(self),
        ensures
            full@ == full_name_of(
                *db,
                db.struct_loc(self).module,
                db.struct_loc(self).data.name@,
            ),
    {
        let path = self.module(db).path_to_root(db);
        let mut names: Vec<String> = Vec::new();
        let mut i: usize = 0;
        while i < path.len()
            invariant
                0 <= i <= path@.len(),
                forall|k: int| 0 <= k < path@.len() ==> db.has_module(#[trigger] path@[k]),
                texts(names@) == module_names(*db, path@, i as int),
            decreases path@.len() - i,
        {
            match path[i].name(db) {
                Some(name) => {
                    let ghost before = names@;
                    names.push(name.to_string());
                    assert(texts(names@) =~= texts(before).push(name@));
                },
                None => {},
            }
            i += 1;
        }
        let ghost modules = names@;
        let own = self.name(db);
        names.push(own.to_string());
        assert(texts(names@) =~= texts(modules).push(own@));
        let parts = intersperse(names, String::from_str("::"));
        let mut full = String::new();
        let mut k: usize = 0;
        while k < parts.len()
            invariant
                0 <= k <= parts@.len(),
                full@ == concatenated(texts(parts@), k as int),
            decreases parts@.len() - k,
        {
            full.append(parts[k].as_str());
            k += 1;
        }
        full
    }

    /// The fields of the struct, in the order of their declaration.
    pub fn fields(self, db: &HirDatabase) -> (fields: Vec<Field>)
        requires
            db.has_struct(self),
        ensures
            fields@.len() == db.struct_loc(self).data.fields@.len(),
            forall|i: int|
                0 <= i < fields@.len() ==> #[trigger] fields@[i] == (Field {
                    parent: self,
                    id: i as usize,
                }),
    {
        let data = self.data(db);
        let mut fields: Vec<Field> = Vec::new();
        let mut i: usize = 0;
        while i < data.fields.len()
            invariant
                0 <= i <= data.fields@.len(),
                fields@.len() == i,
                forall|k: int|
                    0 <= k < i ==> #[trigger] fields@[k] == (Field { parent: self, id: k as usize }),
            decreases data.fields@.len() - i,
        {
            fields.push(Field { parent: self, id: i });
            i += 1;
        }
        fields
    }

    /// The first field of the struct with the given name.
    pub fn field(self, db: &HirDatabase, name: &Name) -> (field: Option<Field>)
        requires
            db.has_struct(self),
        ensures
            match field {
                Some(f) => {
                    &&& f.parent == self
                    &&& f.id < db.struct_loc(self).data.fields@.len()
                    &&& db.struct_loc(self).data.fields@[f.id as int].name@ == name@
                    &&& forall|k: int|
                        0 <= k < f.id ==> (#[trigger] db.struct_loc(self).data.fields@[k]).name@
                            != name@
                },
                None => forall|k: int|
                    0 <= k < db.struct_loc(self).data.fields@.len() ==> (
                    #[trigger] db.struct_loc(self).data.fields@[k]).name@ != name@,
            },
    {
        let data = self.data(db);
        let mut i: usize = 0;
        while i < data.fields.len()
            invariant
                0 <= i <= data.fields@.len(),
                *data == db.struct_loc(self).data,
                forall|k: int| 0 <= k < i ==> (#[trigger] data.fields@[k]).name@ != name@,
            decreases data.fields@.len() - i,
        {
            if data.fields[i].name.same(name) {
                return Some(Field { parent: self, id: i });
            }
            i += 1;
        }
        None
    }
}

/// The definitions that have a body.
#[derive(Debug, Clone, Copy, PartialEq, Eq, Hash, Structural)]
pub enum DefWithBody {
    Function(Function),
}

impl DefWithBody {
    /// The definition that a function is.
    pub fn from(function: Function) -> (def: DefWithBody)
        ensures
            def == DefWithBody::Function(function),
    {
        DefWithBody::Function(function)
    }

    /// The module of the definition.
    pub fn module(self, db: &HirDatabase) -> (module: Module)
        requires
            db.has_function(self->Function_0),
        ensures
            module == db.function_module(self->Function_0),
    {
        match self {
            DefWithBody::Function(f) => f.module(db),
        }
    }
}

/// Definitions that have a struct.
#[derive(Clone, Copy, Debug, PartialEq, Eq, Hash, Structural)]
pub enum DefWithStruct {
    Struct(Struct),
}

impl DefWithStruct {
    /// The definition that a struct is.
    pub fn from(s: Struct) -> (def: DefWithStruct)
        ensures
            def == DefWithStruct::Struct(s),
    {
        DefWithStruct::Struct(s)
    }

    /// The module of the definition.
    pub fn module(self, db: &HirDatabase) -> (module: Module)
        requires
            db.wf(),
            db.has_struct(self->Struct_0),
        ensures
            module == db.struct_loc(self->Struct_0).module,
            db.has_module(module),
    {
        match self {
            DefWithStruct::Struct(s) => s.module(db),
        }
    }

    /// The fields of the definition, in the order of their declaration.
    pub fn fields(self, db: &HirDatabase) -> (fields: Vec<Field>)
        requires
            db.has_struct(self->Struct_0),
        ensures
            fields@.len() == db.struct_loc(self->Struct_0).data.fields@.len(),
            forall|i: int|
                0 <= i < fields@.len() ==> #[trigger] fields@[i] == (Field {
                    parent: self->Struct_0,
                    id: i as usize,
                }),
    {
        match self {
            DefWithStruct::Struct(s) => s.fields(db),
        }
    }

    /// The first field of the definition with the given name.
    pub fn field(self, db: &HirDatabase, name: &Name) -> (field: Option<Field>)
        requires
            db.has_struct(self->Struct_0),
        ensures
            match field {
                Some(f) => {
                    &&& f.parent == self->Struct_0
                    &&& f.id < db.struct_loc(self->Struct_0).data.fields@.len()
                    &&& db.struct_loc(self->Struct_0).data.fields@[f.id as int].name@ == name@
                    &&& forall|k: int|
                        0 <= k < f.id ==> (#[trigger] db.struct_loc(
                            self->Struct_0,
                        ).data.fields@[k]).name@ != name@
                },
                None => forall|k: int|
                    0 <= k < db.struct_loc(self->Struct_0).data.fields@.len() ==> (
                    #[trigger] db.struct_loc(self->Struct_0).data.fields@[k]).name@ != name@,
            },
    {
        match self {
            DefWithStruct::Struct(s) => s.field(db, name),
        }
    }

    /// What the definition says.
    pub fn data(self, db: &HirDatabase) -> (data: &StructData)
        requires
            db.has_struct(self->Struct_0),
        ensures
            *data == db.struct_loc(self->Struct_0).data,
    {
        match self {
            DefWithStruct::Struct(s) => s.data(db),
        }
    }
}

} // verus!
