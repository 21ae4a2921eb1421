use vstd::prelude::*;

verus! {

/// The primitive value kinds a module's function signatures are made of.
#[derive(Clone, Copy, Debug, PartialEq, Eq, Structural)]
pub enum ValueType {
    I32,
    I64,
    F32,
    F64,
    V128,
    Externref,
    Funcref,
}

/// One function of a module, defined or imported.
///
/// `id` is the function's position in the module's function table, in
/// load order; it is the key that hook calls carry.
pub struct FunctionDescriptor {
    pub id: u32,
    pub name: Option<String>,
    pub params: Vec<ValueType>,
    pub results: Vec<ValueType>,
}

pub struct FunctionView {
    pub id: nat,
    pub name: Option<Seq<char>>,
    pub params: Seq<ValueType>,
    pub results: Seq<ValueType>,
}

pub open spec fn opt_string_view(o: Option<String>) -> Option<Seq<char>> {
    match o {
        Some(s) => Some(s@),
        None => None,
    }
}

impl View for FunctionDescriptor {
    type V = FunctionView;

    open spec fn view(&self) -> FunctionView {
        FunctionView {
            id: self.id as nat,
            name: opt_string_view(self.name),
            params: self.params@,
            results: self.results@,
        }
    }
}

/// What an export entry refers to.
#[derive(Clone, Copy, Debug, PartialEq, Eq, Structural)]
pub enum ExportTarget {
    /// A function, by its id.
    Function(u32),
    /// A table, memory or global: left alone by instrumentation.
    Other,
}

pub struct ExportEntry {
    pub name: String,
    pub target: ExportTarget,
}

pub struct ExportView {
    pub name: Seq<char>,
    pub target: ExportTarget,
}

impl View for ExportEntry {
    type V = ExportView;

    open spec fn view(&self) -> ExportView {
        ExportView { name: self.name@, target: self.target }
    }
}

/// The structural view of a module that instrumentation works on: its
/// function table and its export table.
pub struct ModuleModel {
    pub functions: Vec<FunctionDescriptor>,
    pub exports: Vec<ExportEntry>,
}

pub struct ModelView {
    pub functions: Seq<FunctionView>,
    pub exports: Seq<ExportView>,
}

impl View for ModuleModel {
    type V = ModelView;

    open spec fn view(&self) -> ModelView {
        ModelView {
            functions: self.functions@.map_values(|f: FunctionDescriptor| f@),
            exports: self.exports@.map_values(|e: ExportEntry| e@),
        }
    }
}

/// Largest number of functions a model may hold: every id, and the ids of
/// the functions instrumentation adds, must fit a 32-bit signed constant.
pub const MAX_FUNCTIONS: u32 = 0x3fff_ffff;

impl ModelView {
    /// Ids are positions, and every function export names an existing function.
    pub open spec fn well_formed(self) -> bool {
        &&& self.functions.len() <= MAX_FUNCTIONS
        &&& self.exports.len() <= MAX_FUNCTIONS
        &&& forall|i: int| 0 <= i < self.functions.len() ==> #[trigger] self.functions[i].id == i
        &&& forall|i: int|
            0 <= i < self.functions.len() ==> #[trigger] self.functions[i].params.len()
                + self.functions[i].results.len() <= u32::MAX
        &&& forall|j: int|
            0 <= j < self.exports.len() ==> match #[trigger] self.exports[j].target {
                ExportTarget::Function(f) => f < self.functions.len(),
                ExportTarget::Other => true,
            }
    }

    pub open spec fn is_function_export(self, j: int) -> bool {
        self.exports[j].target is Function
    }

    pub open spec fn export_func(self, j: int) -> nat {
        match self.exports[j].target {
            ExportTarget::Function(f) => f as nat,
            ExportTarget::Other => 0,
        }
    }

    pub open spec fn has_name(self, f: nat) -> bool {
        f < self.functions.len() && self.functions[f as int].name is Some
    }
}

impl ModuleModel {
    /// Tests whether the model is well formed.
    pub fn check_well_formed(&self) -> (r: bool)
        ensures
            r == self@.well_formed(),
    {
        let n = self.functions.len();
        if n > MAX_FUNCTIONS as usize || self.exports.len() > MAX_FUNCTIONS as usize {
            return false;
        }
        let mut i: usize = 0;
        while i < n
            invariant
                n == self.functions.len(),
                n <= MAX_FUNCTIONS,
                i <= n,
                self.exports.len() <= MAX_FUNCTIONS,
                forall|k: int| 0 <= k < i ==> #[trigger] self@.functions[k].id == k,
                forall|k: int|
                    0 <= k < i ==> #[trigger] self@.functions[k].params.len()
                        + self@.functions[k].results.len() <= u32::MAX,
            decreases n - i,
        {
            let f = &self.functions[i];
            if f.id as usize != i {
                assert(self@.functions[i as int].id != i);
                return false;
            }
            if f.results.len() > u32::MAX as usize || f.params.len() > u32::MAX as usize - f.results.len() {
                assert(self@.functions[i as int].params.len() + self@.functions[i as int].results.len() > u32::MAX);
                return false;
            }
            i = i + 1;
        }
        let mut j: usize = 0;
        while j < self.exports.len()
            invariant
                n == self.functions.len(),
                n <= MAX_FUNCTIONS,
                self.exports.len() <= MAX_FUNCTIONS,
                forall|k: int| 0 <= k < n ==> #[trigger] self@.functions[k].id == k,
                forall|k: int|
                    0 <= k < n ==> #[trigger] self@.functions[k].params.len()
                        + self@.functions[k].results.len() <= u32::MAX,
                j <= self.exports.len(),
                forall|k: int|
                    0 <= k < j ==> match #[trigger] self@.exports[k].target {
                        ExportTarget::Function(f) => f < n,
                        ExportTarget::Other => true,
                    },
            decreases self.exports.len() - j,
        {
            match self.exports[j].target {
                ExportTarget::Function(f) => {
                    if f as usize >= n {
                        assert(self@.exports[j as int].target == ExportTarget::Function(f));
                        return false;
                    }
                },
                ExportTarget::Other => {},
            }
            j = j + 1;
        }
        true
    }
}

} // verus!
