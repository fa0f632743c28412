//! The names that a parser knows before it has read anything: the built-in
//! types, and where a name stands among the known types, variables and
//! functions.

use vstd::prelude::*;

verus! {

/// A type of variables: its name and its size in bytes.
pub struct VariableType {
    pub name: String,
    pub size: usize,
}

/// A variable: its name and its type.
pub struct VariableName<'a> {
    pub name: String,
    pub tp: &'a VariableType,
}

/// A function: its name, its arguments and the type that it returns.
pub struct FunctionName<'a> {
    pub name: String,
    pub args: Vec<VariableName<'a>>,
    pub return_tp: &'a VariableType,
}

/// The built-in types, each with its size in bytes.
pub open spec fn builtin_types() -> Seq<(Seq<char>, usize)> {
    seq![
        ("i8"@, 1usize),
        ("i16"@, 2usize),
        ("i32"@, 4usize),
        ("i64"@, 8usize),
        ("u8"@, 1usize),
        ("u16"@, 2usize),
        ("u32"@, 4usize),
        ("u64"@, 8usize),
        ("bool"@, 1usize),
        ("char"@, 4usize),
    ]
}

/// The name and the size of each type of `v`, in order.
pub open spec fn type_entries(v: Seq<VariableType>) -> Seq<(Seq<char>, usize)> {
    v.map_values(|t: VariableType| (t.name@, t.size))
}

/// The names of the types of `v`, in order.
pub open spec fn type_names(v: Seq<VariableType>) -> Seq<Seq<char>> {
    v.map_values(|t: VariableType| t.name@)
}

/// The names of the variables of `v`, in order.
pub open spec fn variable_names(v: Seq<VariableName>) -> Seq<Seq<char>> {
    v.map_values(|t: VariableName| t.name@)
}

/// The names of the functions of `v`, in order.
pub open spec fn function_names(v: Seq<FunctionName>) -> Seq<Seq<char>> {
    v.map_values(|t: FunctionName| t.name@)
}

/// Whether `at` is where `name` first stands in `names`: `Some` of the
/// least index that holds `name`, or `None` where no index holds it.
pub open spec fn is_first_position(names: Seq<Seq<char>>, name: Seq<char>, at: Option<usize>) -> bool {
    match at {
        Some(i) => {
            &&& i < names.len()
            &&& names[i as int] == name
            &&& forall|j: int| 0 <= j < i ==> names[j] != name
        },
        None => forall|j: int| 0 <= j < names.len() ==> names[j] != name,
    }
}

/// What is known at the start: the built-in types, no variable and no
/// function.
pub fn init() -> (r: (Vec<VariableType>, Vec<VariableName<'static>>, Vec<FunctionName<'static>>))
    ensures
        type_entries(r.0@) == builtin_types(),
        r.1@.len() == 0,
        r.2@.len() == 0,
{
    let variable_name: Vec<VariableName<'static>> = Vec::new();
    let function_name: Vec<FunctionName<'static>> = Vec::new();
    let variable_type: Vec<VariableType> = vec![
        VariableType { name: "i8".to_owned(), size: 1 },
        VariableType { name: "i16".to_owned(), size: 2 },
        VariableType { name: "i32".to_owned(), size: 4 },
        VariableType { name: "i64".to_owned(), size: 8 },
        VariableType { name: "u8".to_owned(), size: 1 },
        VariableType { name: "u16".to_owned(), size: 2 },
        VariableType { name: "u32".to_owned(), size: 4 },
        VariableType { name: "u64".to_owned(), size: 8 },
        VariableType { name: "bool".to_owned(), size: 1 },
        VariableType { name: "char".to_owned(), size: 4 },
    ];
    assert(type_entries(variable_type@) =~= builtin_types());
    (variable_type, variable_name, function_name)
}

/// Looking a name up among the known types, variables and functions.
pub trait ParseCheck: Sized {
    /// The characters of the name.
    spec fn spelling(&self) -> Seq<char>;

    /// Where the name first stands among the types of `v`.
    fn is_variable_type(self, v: Vec<VariableType>) -> (r: Option<usize>)
        ensures
            is_first_position(type_names(v@), self.spelling(), r),
    ;

    /// Where the name first stands among the variables of `v`.
    fn is_variable_name(self, v: Vec<VariableName>) -> (r: Option<usize>)
        ensures
            is_first_position(variable_names(v@), self.spelling(), r),
    ;

    /// Where the name first stands among the functions of `v`.
    fn is_function_name(self, v: Vec<FunctionName>) -> (r: Option<usize>)
        ensures
            is_first_position(function_names(v@), self.spelling(), r),
    ;
}

impl ParseCheck for std::string::String {
    open spec fn spelling(&self) -> Seq<char> {
        self@
    }

    fn is_variable_type(self, v: Vec<VariableType>) -> (r: Option<usize>) {
        let mut i: usize = 0;
        while i < v.len()
            invariant
                i <= v.len(),
                forall|j: int| 0 <= j < i ==> type_names(v@)[j] != self@,
            decreases v.len() - i,
        {
            if v[i].name == self {
                return Some(i);
            }
            i += 1;
        }
        None
    }

    fn is_variable_name(self, v: Vec<VariableName>) -> (r: Option<usize>) {
        let mut i: usize = 0;
        while i < v.len()
            invariant
                i <= v.len(),
                forall|j: int| 0 <= j < i ==> variable_names(v@)[j] != self@,
            decreases v.len() - i,
        {
            if v[i].name == self {
                return Some(i);
            }
            i += 1;
        }
        None
    }

    fn is_function_name(self, v: Vec<FunctionName>) -> (r: Option<usize>) {
        let mut i: usize = 0;
        while i < v.len()
            invariant
                i <= v.len(),
                forall|j: int| 0 <= j < i ==> function_names(v@)[j] != self@,
            decreases v.len() - i,
        {
            if v[i].name == self {
                return Some(i);
            }
            i += 1;
        }
        None
    }
}

} // verus!
