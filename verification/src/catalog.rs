use vstd::prelude::*;
use vstd::string::StringExecFns;
use crate::function::{Function, Aggregate};
use crate::sql_type::{SqlType, type_of_bytes, spelling};
use crate::text::{str_eq, views, has_prefix};
use vstd::utf8::encode_utf8;

verus! {

/// A library of user-defined functions as the registry lists it: its name,
/// whether it is active, its functions and aggregates, and where it lies.
pub struct FunctionLibrary {
    pub name: String,
    pub active: bool,
    pub funcs: Vec<Function>,
    pub aggs: Vec<Aggregate>,
    pub local_path: String,
    pub remote_path: Option<String>,
}

/// The libraries of user-defined functions known in the session, in registry order.
pub struct FunctionCatalog {
    pub libs: Vec<FunctionLibrary>,
}

/// The position of the first function named `name` in `fs[j..]`.
pub open spec fn find_func(fs: Seq<Function>, name: Seq<char>, j: int) -> Option<int>
    decreases fs.len() - j,
{
    if j < 0 || j >= fs.len() {
        None
    } else if fs[j].name@ == name {
        Some(j)
    } else {
        find_func(fs, name, j + 1)
    }
}

/// The (library, function) positions of the first function named `name`, looking
/// through the libraries from position `i` on, in order.
pub open spec fn find_in_libs(libs: Seq<FunctionLibrary>, name: Seq<char>, i: int) -> Option<(int, int)>
    decreases libs.len() - i,
{
    if i < 0 || i >= libs.len() {
        None
    } else {
        match find_func(libs[i].funcs@, name, 0) {
            Some(j) => Some((i, j)),
            None => find_in_libs(libs, name, i + 1),
        }
    }
}

/// The position of the first library named `name` in `libs[i..]`.
pub open spec fn find_lib(libs: Seq<FunctionLibrary>, name: Seq<char>, i: int) -> Option<int>
    decreases libs.len() - i,
{
    if i < 0 || i >= libs.len() {
        None
    } else if libs[i].name@ == name {
        Some(i)
    } else {
        find_lib(libs, name, i + 1)
    }
}

/// The functions listed for the library named `name`: those of the first library
/// of that name, or none.
pub open spec fn funcs_for_lib(libs: Seq<FunctionLibrary>, name: Seq<char>) -> Seq<Function> {
    match find_lib(libs, name, 0) {
        Some(i) => libs[i].funcs@,
        None => Seq::empty(),
    }
}

/// The first library (from `i` on) whose listed functions (see `funcs_for_lib`,
/// by its name) include one named `fn_name`, and that function's position there.
pub open spec fn find_fn_from(libs: Seq<FunctionLibrary>, fn_name: Seq<char>, i: int) -> Option<(int, int)>
    decreases libs.len() - i,
{
    if i < 0 || i >= libs.len() {
        None
    } else {
        match find_func(funcs_for_lib(libs, libs[i].name@), fn_name, 0) {
            Some(j) => Some((i, j)),
            None => find_fn_from(libs, fn_name, i + 1),
        }
    }
}

fn find_func_exec(fs: &Vec<Function>, name: &str) -> (r: Option<usize>)
    ensures
        match r {
            Some(j) => find_func(fs@, name@, 0) == Some(j as int) && j < fs@.len(),
            None => find_func(fs@, name@, 0).is_none(),
        },
{
    let mut j: usize = 0;
    while j < fs.len()
        invariant
            j <= fs@.len(),
            find_func(fs@, name@, 0) == find_func(fs@, name@, j as int),
        decreases fs@.len() - j,
    {
        if str_eq(fs[j].name.as_str(), name) {
            return Some(j);
        }
        j = j + 1;
    }
    None
}

fn find_lib_exec(libs: &Vec<FunctionLibrary>, name: &str) -> (r: Option<usize>)
    ensures
        match r {
            Some(i) => find_lib(libs@, name@, 0) == Some(i as int) && i < libs@.len(),
            None => find_lib(libs@, name@, 0).is_none(),
        },
{
    let mut i: usize = 0;
    while i < libs.len()
        invariant
            i <= libs@.len(),
            find_lib(libs@, name@, 0) == find_lib(libs@, name@, i as int),
        decreases libs@.len() - i,
    {
        if str_eq(libs[i].name.as_str(), name) {
            return Some(i);
        }
        i = i + 1;
    }
    None
}

impl FunctionCatalog {
    /// The first function named `name`, looking through the libraries in order.
    pub fn get_func(&self, name: &str) -> (r: Option<&Function>)
        ensures
            match find_in_libs(self.libs@, name@, 0) {
                Some((i, j)) => r == Some(&self.libs@[i].funcs@[j]),
                None => r.is_none(),
            },
    {
        let mut i: usize = 0;
        while i < self.libs.len()
            invariant
                i <= self.libs@.len(),
                find_in_libs(self.libs@, name@, 0) == find_in_libs(self.libs@, name@, i as int),
            decreases self.libs@.len() - i,
        {
            match find_func_exec(&self.libs[i].funcs, name) {
                Some(j) => {
                    return Some(&self.libs[i].funcs[j]);
                },
                None => {},
            }
            i = i + 1;
        }
        None
    }

    /// Whether some library has a function named `name`.
    pub fn has_func_name(&self, name: &str) -> (r: bool)
        ensures
            r == find_in_libs(self.libs@, name@, 0).is_some(),
    {
        self.get_func(name).is_some()
    }

    /// The documentation of the first function named `name`, if it has any.
    pub fn get_doc(&self, name: &str) -> (r: Option<String>)
        ensures
            match find_in_libs(self.libs@, name@, 0) {
                Some((i, j)) => match self.libs@[i].funcs@[j].doc {
                    Some(d) => r matches Some(s) && s@ == d@,
                    None => r.is_none(),
                },
                None => r.is_none(),
            },
    {
        match self.get_func(name) {
            Some(f) => match &f.doc {
                Some(d) => Some(d.clone()),
                None => None,
            },
            None => None,
        }
    }

    /// The argument types, spelled out, of the first function named `name`.
    pub fn get_args(&self, name: &str) -> (r: Option<Vec<String>>)
        ensures
            match find_in_libs(self.libs@, name@, 0) {
                Some((i, j)) => r matches Some(v) && views(v@) == Seq::new(
                    self.libs@[i].funcs@[j].args@.len(),
                    |k: int| spelling(self.libs@[i].funcs@[j].args@[k]),
                ),
                None => r.is_none(),
            },
    {
        match self.get_func(name) {
            Some(f) => {
                let mut out: Vec<String> = Vec::new();
                let mut k: usize = 0;
                while k < f.args.len()
                    invariant
                        k <= f.args@.len(),
                        out@.len() == k,
                        forall|m: int| 0 <= m < k ==> #[trigger] out@[m]@ == spelling(f.args@[m]),
                    decreases f.args@.len() - k,
                {
                    out.push(f.args[k].to_string());
                    k = k + 1;
                }
                assert(views(out@) =~= Seq::new(f.args@.len(), |k: int| spelling(f.args@[k])));
                Some(out)
            },
            None => None,
        }
    }

    /// The functions of the first library named `lib_name` (none if there is no such library).
    pub fn fn_list_for_lib(&self, lib_name: &str) -> (r: Vec<&Function>)
        ensures
            r@.len() == funcs_for_lib(self.libs@, lib_name@).len(),
            forall|k: int| 0 <= k < r@.len() ==> *(#[trigger] r@[k]) == funcs_for_lib(self.libs@, lib_name@)[k],
    {
        let mut out: Vec<&Function> = Vec::new();
        match find_lib_exec(&self.libs, lib_name) {
            Some(i) => {
                let fs = &self.libs[i].funcs;
                let mut k: usize = 0;
                while k < fs.len()
                    invariant
                        k <= fs@.len(),
                        out@.len() == k,
                        forall|m: int| 0 <= m < k ==> *(#[trigger] out@[m]) == fs@[m],
                    decreases fs@.len() - k,
                {
                    out.push(&fs[k]);
                    k = k + 1;
                }
            },
            None => {},
        }
        out
    }

    /// The first library (in order) among whose listed functions there is one
    /// named `fn_name`, with that function.
    pub fn find_fn(&self, fn_name: &str) -> (r: Option<(&FunctionLibrary, &Function)>)
        ensures
            match find_fn_from(self.libs@, fn_name@, 0) {
                Some((i, j)) => r matches Some((l, f)) && *l == self.libs@[i]
                    && *f == funcs_for_lib(self.libs@, self.libs@[i].name@)[j],
                None => r.is_none(),
            },
    {
        let mut i: usize = 0;
        while i < self.libs.len()
            invariant
                i <= self.libs@.len(),
                find_fn_from(self.libs@, fn_name@, 0) == find_fn_from(self.libs@, fn_name@, i as int),
            decreases self.libs@.len() - i,
        {
            let lib = &self.libs[i];
            let fns = self.fn_list_for_lib(lib.name.as_str());
            let mut j: usize = 0;
            while j < fns.len()
                invariant
                    i < self.libs@.len(),
                    *lib == self.libs@[i as int],
                    find_fn_from(self.libs@, fn_name@, 0) == find_fn_from(self.libs@, fn_name@, i as int),
                    j <= fns@.len(),
                    fns@.len() == funcs_for_lib(self.libs@, self.libs@[i as int].name@).len(),
                    forall|k: int| 0 <= k < fns@.len() ==> *(#[trigger] fns@[k]) == funcs_for_lib(self.libs@, self.libs@[i as int].name@)[k],
                    find_func(funcs_for_lib(self.libs@, self.libs@[i as int].name@), fn_name@, 0)
                        == find_func(funcs_for_lib(self.libs@, self.libs@[i as int].name@), fn_name@, j as int),
                decreases fns@.len() - j,
            {
                let f: &Function = fns[j];
                if str_eq(f.name.as_str(), fn_name) {
                    let ghost fl = funcs_for_lib(self.libs@, self.libs@[i as int].name@);
                    assert(*f == fl[j as int]);
                    assert(find_func(fl, fn_name@, j as int) == Some(j as int));
                    assert(find_fn_from(self.libs@, fn_name@, i as int) == Some((i as int, j as int)));
                    return Some((lib, f));
                }
                j = j + 1;
            }
            i = i + 1;
        }
        None
    }
}

/// The (name, active) of each library of `libs[..n]` whose name starts with
/// `prefix` (every library when there is none), in order.
pub open spec fn listed_libs(libs: Seq<FunctionLibrary>, prefix: Option<Seq<char>>, n: int) -> Seq<(Seq<char>, bool)>
    decreases n,
{
    if n <= 0 {
        Seq::empty()
    } else {
        let prev = listed_libs(libs, prefix, n - 1);
        let lib = libs[n - 1];
        let shown = match prefix {
            Some(p) => p.len() <= lib.name@.len() && lib.name@.take(p.len() as int) == p,
            None => true,
        };
        if shown { prev.push((lib.name@, lib.active)) } else { prev }
    }
}

/// The text shown for a function: its name and documentation.
pub open spec fn fn_info_of(libs: Seq<FunctionLibrary>, name: Option<Seq<char>>) -> Option<(Seq<char>, Seq<char>)> {
    match name {
        None => Some((Seq::empty(), Seq::empty())),
        Some(n) => match find_in_libs(libs, n, 0) {
            Some((i, j)) => Some((n, match libs[i].funcs@[j].doc {
                Some(d) => d@,
                None => "No documentation available"@,
            })),
            None => None,
        },
    }
}

impl FunctionCatalog {
    /// The (name, active) of the libraries whose name starts with `prefix`
    /// (all of them when there is none), in registry order.
    pub fn lib_list(&self, prefix: Option<&str>) -> (r: Vec<(String, bool)>)
        ensures
            ({
                let p = match prefix { Some(q) => Some(q@), None => None };
                let l = listed_libs(self.libs@, p, self.libs@.len() as int);
                &&& r@.len() == l.len()
                &&& forall|k: int| 0 <= k < l.len() ==> (#[trigger] r@[k]).0@ == l[k].0 && r@[k].1 == l[k].1
            }),
    {
        let ghost p = match prefix { Some(q) => Some(q@), None => None };
        let mut out: Vec<(String, bool)> = Vec::new();
        let mut i: usize = 0;
        while i < self.libs.len()
            invariant
                p == match prefix { Some(q) => Some(q@), None => None },
                i <= self.libs@.len(),
                out@.len() == listed_libs(self.libs@, p, i as int).len(),
                forall|k: int| 0 <= k < out@.len() ==> (#[trigger] out@[k]).0@ == listed_libs(self.libs@, p, i as int)[k].0
                    && out@[k].1 == listed_libs(self.libs@, p, i as int)[k].1,
            decreases self.libs@.len() - i,
        {
            let lib = &self.libs[i];
            let shown = match prefix {
                Some(q) => has_prefix(lib.name.as_str(), q),
                None => true,
            };
            if shown {
                out.push((lib.name.clone(), lib.active));
            }
            i = i + 1;
        }
        out
    }

    /// The name and documentation to show for the function named `name` (empty
    /// texts when no function is selected); `None` when no library has it.
    pub fn fn_info(&self, name: Option<&str>) -> (r: Option<(String, String)>)
        ensures
            match fn_info_of(self.libs@, match name { Some(n) => Some(n@), None => None }) {
                Some((a, b)) => r matches Some((x, y)) && x@ == a && y@ == b,
                None => r is None,
            },
    {
        match name {
            None => Some((String::new(), String::new())),
            Some(n) => {
                if self.has_func_name(n) {
                    let doc = match self.get_doc(n) {
                        Some(d) => d,
                        None => "No documentation available".to_owned(),
                    };
                    Some((n.to_owned(), doc))
                } else {
                    None
                }
            },
        }
    }

    /// The manifest path of the first library named `name`, from which it is
    /// loaded again when updated.
    pub fn update_crate(&self, name: &str) -> (r: Result<String, String>)
        ensures
            match find_lib(self.libs@, name@, 0) {
                Some(i) => r matches Ok(p) && p@ == self.libs@[i].local_path@,
                None => r matches Err(e) && e@ == "Library "@ + name@ + " not found"@,
            },
    {
        match find_lib_exec(&self.libs, name) {
            Some(i) => Ok(self.libs[i].local_path.clone()),
            None => {
                let mut e = "Library ".to_owned();
                e.append(name);
                e.append(" not found");
                Err(e)
            },
        }
    }

    /// Drops the first library named `name`, if any; says whether one was dropped.
    pub fn remove_crate(&mut self, name: &str) -> (r: bool)
        ensures
            match find_lib(old(self).libs@, name@, 0) {
                Some(i) => r && final(self).libs@ == old(self).libs@.remove(i),
                None => !r && final(self).libs@ == old(self).libs@,
            },
    {
        match find_lib_exec(&self.libs, name) {
            Some(i) => {
                self.libs.remove(i);
                true
            },
            None => false,
        }
    }
}

/// Whether the functions `fs` include one named `name`.
pub open spec fn has_func(fs: Seq<Function>, name: Seq<char>) -> bool {
    exists|k: int| 0 <= k < fs.len() && (#[trigger] fs[k]).name@ == name
}

/// Whether the functions `fs` include the initial, state and final functions of `agg`.
pub open spec fn aggregate_complete(fs: Seq<Function>, agg: Aggregate) -> bool {
    has_func(fs, agg.init_func@) && has_func(fs, agg.state_func@) && has_func(fs, agg.final_func@)
}

/// The first position in `rows[..n]` that is refused when reloading aggregates:
/// a row that could not be read, or an aggregate missing one of its functions.
pub open spec fn first_bad_row(fs: Seq<Function>, rows: Seq<Option<Aggregate>>, n: int) -> Option<int>
    decreases n,
{
    if n <= 0 {
        None
    } else {
        match first_bad_row(fs, rows, n - 1) {
            Some(k) => Some(k),
            None => match rows[n - 1] {
                Some(a) => if aggregate_complete(fs, a) { None } else { Some(n - 1) },
                None => Some(n - 1),
            },
        }
    }
}

fn has_func_exec(fs: &Vec<Function>, name: &str) -> (r: bool)
    ensures
        r == has_func(fs@, name@),
{
    let mut k: usize = 0;
    while k < fs.len()
        invariant
            k <= fs@.len(),
            forall|m: int| 0 <= m < k ==> (#[trigger] fs@[m]).name@ != name@,
        decreases fs@.len() - k,
    {
        if str_eq(fs[k].name.as_str(), name) {
            return true;
        }
        k = k + 1;
    }
    false
}

impl FunctionLibrary {
    /// Replaces the library's aggregates with those read from the registry, in
    /// order: a row that could not be read, or an aggregate whose initial, state or
    /// final function the library lacks, stops the reload with an error, keeping
    /// the aggregates accepted before it.
    pub fn reload_aggregates(&mut self, rows_in: Vec<Option<Aggregate>>) -> (r: Result<(), &'static str>)
        ensures
            final(self).name == old(self).name,
            final(self).active == old(self).active,
            final(self).funcs == old(self).funcs,
            ({
                let stop = match first_bad_row(old(self).funcs@, rows_in@, rows_in@.len() as int) {
                    Some(k) => k,
                    None => rows_in@.len() as int,
                };
                &&& final(self).aggs@ == Seq::new(stop as nat, |k: int| rows_in@[k]->0)
                &&& match first_bad_row(old(self).funcs@, rows_in@, rows_in@.len() as int) {
                    Some(k) => r matches Err(m) && (if rows_in@[k] is None {
                        m@ == "Invalid aggregate found"@
                    } else {
                        m@ == "Missing component of aggregate function"@
                    }),
                    None => r is Ok,
                }
            }),
    {
        self.aggs = Vec::new();
        let ghost fs = self.funcs@;
        let mut k: usize = 0;
        let mut rows = rows_in;
        let ghost all = rows@;
        let n = rows.len();
        while k < n
            invariant
                fs == self.funcs@,
                self.name == old(self).name,
                self.active == old(self).active,
                self.funcs == old(self).funcs,
                all == rows_in@,
                n == all.len(),
                k <= all.len(),
                rows@ == all.skip(k as int),
                first_bad_row(fs, all, k as int).is_none(),
                self.aggs@ == Seq::new(k as nat, |m: int| all[m]->0),
            decreases n - k,
        {
            let row = rows.remove(0);
            assert(row == all[k as int]);
            match row {
                Some(agg) => {
                    let init_found = has_func_exec(&self.funcs, agg.init_func.as_str());
                    let state_found = has_func_exec(&self.funcs, agg.state_func.as_str());
                    let final_found = has_func_exec(&self.funcs, agg.final_func.as_str());
                    if init_found && state_found && final_found {
                        let ghost before = self.aggs@;
                        self.aggs.push(agg);
                        assert(self.aggs@ =~= Seq::new((k + 1) as nat, |m: int| all[m]->0));
                    } else {
                        proof { lemma_bad_row_stays(fs, all, (k + 1) as int, all.len() as int); }
                        return Err("Missing component of aggregate function");
                    }
                },
                None => {
                    proof { lemma_bad_row_stays(fs, all, (k + 1) as int, all.len() as int); }
                    return Err("Invalid aggregate found");
                },
            }
            k = k + 1;
        }
        Ok(())
    }
}

/// Once a row is refused, it stays the first refused row.
proof fn lemma_bad_row_stays(fs: Seq<Function>, rows: Seq<Option<Aggregate>>, k: int, n: int)
    requires
        0 <= k <= n,
        first_bad_row(fs, rows, k).is_some(),
    ensures
        first_bad_row(fs, rows, n) == first_bad_row(fs, rows, k),
    decreases n - k,
{
    if n > k {
        lemma_bad_row_stays(fs, rows, k, n - 1);
    }
}

/// A function as the registry stores it: name, documentation, whether it is
/// variadic, its return type as written, and its argument types.
pub struct FunctionRow {
    pub name: String,
    pub doc: Option<String>,
    pub var_arg: bool,
    pub ret: String,
    pub args: Vec<SqlType>,
}

/// The first position in `rows[..n]` that is refused when reloading functions:
/// a row that could not be read, or one whose return type spells no type.
pub open spec fn first_bad_fn_row(rows: Seq<Option<FunctionRow>>, n: int) -> Option<int>
    decreases n,
{
    if n <= 0 {
        None
    } else {
        match first_bad_fn_row(rows, n - 1) {
            Some(k) => Some(k),
            None => match rows[n - 1] {
                Some(row) => if type_of_bytes(encode_utf8(row.ret@)) is Some { None } else { Some(n - 1) },
                None => Some(n - 1),
            },
        }
    }
}

/// The function a (readable) registry row describes.
pub open spec fn row_function_matches(row: FunctionRow, f: Function) -> bool {
    &&& f.name@ == row.name@
    &&& f.args@ == row.args@
    &&& Some(f.ret) == type_of_bytes(encode_utf8(row.ret@))
    &&& f.var_arg == row.var_arg
    &&& match (f.doc, row.doc) {
        (Some(a), Some(b)) => a@ == b@,
        (None, None) => true,
        _ => false,
    }
}

proof fn lemma_bad_fn_row_stays(rows: Seq<Option<FunctionRow>>, k: int, n: int)
    requires
        0 <= k <= n,
        first_bad_fn_row(rows, k).is_some(),
    ensures
        first_bad_fn_row(rows, n) == first_bad_fn_row(rows, k),
    decreases n - k,
{
    if n > k {
        lemma_bad_fn_row_stays(rows, k, n - 1);
    }
}

impl FunctionLibrary {
    /// Replaces the library's functions with those read from the registry. A row
    /// that could not be read, or a return type that spells no type, stops the
    /// reload with an error and leaves the library without functions.
    pub fn reload_functions(&mut self, rows_in: Vec<Option<FunctionRow>>) -> (r: Result<(), &'static str>)
        ensures
            final(self).name == old(self).name,
            final(self).active == old(self).active,
            final(self).aggs == old(self).aggs,
            match first_bad_fn_row(rows_in@, rows_in@.len() as int) {
                Some(k) => {
                    &&& final(self).funcs@.len() == 0
                    &&& r matches Err(m)
                    &&& (if rows_in@[k] is None {
                        m@ == "Error retrieving nth row"@
                    } else {
                        m@ == "Failed at converting return type"@
                    })
                },
                None => {
                    &&& r is Ok
                    &&& final(self).funcs@.len() == rows_in@.len()
                    &&& forall|k: int| 0 <= k < rows_in@.len()
                        ==> row_function_matches(rows_in@[k]->0, #[trigger] final(self).funcs@[k])
                },
            },
    {
        self.funcs = Vec::new();
        let mut funcs: Vec<Function> = Vec::new();
        let mut rows = rows_in;
        let ghost all = rows@;
        let n = rows.len();
        let mut k: usize = 0;
        while k < n
            invariant
                self.name == old(self).name,
                self.active == old(self).active,
                self.aggs == old(self).aggs,
                self.funcs@.len() == 0,
                all == rows_in@,
                n == all.len(),
                k <= n,
                rows@ == all.skip(k as int),
                first_bad_fn_row(all, k as int).is_none(),
                funcs@.len() == k,
                forall|m: int| 0 <= m < k ==> row_function_matches(all[m]->0, #[trigger] funcs@[m]),
            decreases n - k,
        {
            let row = rows.remove(0);
            assert(row == all[k as int]);
            match row {
                Some(r) => {
                    match SqlType::try_from(r.ret.as_str()) {
                        Ok(ret) => {
                            funcs.push(Function { name: r.name, args: r.args, ret, doc: r.doc, var_arg: r.var_arg });
                        },
                        Err(()) => {
                            proof { lemma_bad_fn_row_stays(all, (k + 1) as int, all.len() as int); }
                            return Err("Failed at converting return type");
                        },
                    }
                },
                None => {
                    proof { lemma_bad_fn_row_stays(all, (k + 1) as int, all.len() as int); }
                    return Err("Error retrieving nth row");
                },
            }
            k = k + 1;
        }
        self.funcs = funcs;
        Ok(())
    }
}

/// A numeric function: its name, argument names and documentation.
#[derive(Clone, Debug)]
pub struct NumFunction {
    pub name: String,
    pub args: Vec<String>,
    pub doc: String,
}

/// A library of numeric functions as the registry lists it.
pub struct NumFunctionLibrary {
    pub name: String,
    pub funcs: Vec<NumFunction>,
    pub local_path: String,
    pub remote_path: Option<String>,
}

/// A numeric function as the registry lists it: its name and documentation, and
/// its argument names when they could be read.
pub struct NumFunctionRow {
    pub name: String,
    pub doc: String,
    pub args: Option<Vec<String>>,
}

/// The readable rows of `rows[..n]`, in order.
pub open spec fn readable_rows(rows: Seq<Option<NumFunctionRow>>, n: int) -> Seq<NumFunctionRow>
    decreases n,
{
    if n <= 0 {
        Seq::empty()
    } else {
        match rows[n - 1] {
            Some(row) => readable_rows(rows, n - 1).push(row),
            None => readable_rows(rows, n - 1),
        }
    }
}

/// Whether a row was read but its arguments were not.
pub open spec fn lacks_args(row: Option<NumFunctionRow>) -> bool {
    match row {
        Some(r) => r.args is None,
        None => false,
    }
}

/// Whether some readable row of `rows[..n]` lacks its arguments.
pub open spec fn args_missing(rows: Seq<Option<NumFunctionRow>>, n: int) -> bool {
    exists|k: int| 0 <= k < n && #[trigger] lacks_args(rows[k])
}

/// The numeric function a readable row describes.
pub open spec fn num_row_matches(f: NumFunction, row: NumFunctionRow) -> bool {
    &&& f.name@ == row.name@
    &&& f.doc@ == row.doc@
    &&& row.args matches Some(a) && views(f.args@) == views(a@)
}

impl NumFunctionLibrary {
    /// Replaces the library's functions with those the registry lists for it. When
    /// the listing failed, or some function's arguments could not be read, the
    /// library is left without functions and the error says which; rows that could
    /// not be read are skipped.
    pub fn repopulate(&mut self, rows: Option<Vec<Option<NumFunctionRow>>>) -> (r: Result<(), &'static str>)
        ensures
            final(self).name == old(self).name,
            final(self).local_path == old(self).local_path,
            final(self).remote_path == old(self).remote_path,
            match rows {
                None => {
                    &&& r matches Err(m) && m@ == "Error mapping argument query results"@
                    &&& final(self).funcs@.len() == 0
                },
                Some(rs) => if args_missing(rs@, rs@.len() as int) {
                    &&& r matches Err(m) && m@ == "Error retrieving nth row"@
                    &&& final(self).funcs@.len() == 0
                } else {
                    let ok = readable_rows(rs@, rs@.len() as int);
                    &&& r is Ok
                    &&& final(self).funcs@.len() == ok.len()
                    &&& forall|k: int| 0 <= k < ok.len() ==> num_row_matches(#[trigger] final(self).funcs@[k], ok[k])
                },
            },
    {
        self.funcs = Vec::new();
        match rows {
            None => Err("Error mapping argument query results"),
            Some(rs) => {
                let ghost all = rs@;
                let mut funcs: Vec<NumFunction> = Vec::new();
                let mut rest = rs;
                let n = rest.len();
                let mut k: usize = 0;
                while k < n
                    invariant
                        self.name == old(self).name,
                        self.local_path == old(self).local_path,
                        self.remote_path == old(self).remote_path,
                        self.funcs@.len() == 0,
                        rows matches Some(v) && v@ == all,
                        n == all.len(),
                        k <= n,
                        rest@ == all.skip(k as int),
                        !args_missing(all, k as int),
                        funcs@.len() == readable_rows(all, k as int).len(),
                        forall|m: int| 0 <= m < funcs@.len() ==> num_row_matches(#[trigger] funcs@[m], readable_rows(all, k as int)[m]),
                    decreases n - k,
                {
                    let row = rest.remove(0);
                    assert(row == all[k as int]);
                    match row {
                        Some(r) => {
                            match r.args {
                                Some(args) => {
                                    let ghost a = args;
                                    funcs.push(NumFunction { name: r.name, args, doc: r.doc });
                                    assert(views(funcs@.last().args@) == views(a@));
                                },
                                None => {
                                    assert(lacks_args(all[k as int]));
                                    assert(args_missing(all, all.len() as int));
                                    return Err("Error retrieving nth row");
                                },
                            }
                        },
                        None => {},
                    }
                    assert(!args_missing(all, k + 1)) by {
                        assert forall|j: int| 0 <= j < k + 1 implies !#[trigger] lacks_args(all[j]) by {
                            if j < k {
                                assert(!args_missing(all, k as int));
                            }
                        }
                    }
                    k = k + 1;
                }
                self.funcs = funcs;
                Ok(())
            },
        }
    }
}

/// The numeric-function libraries known in the session, in registry order.
pub struct NumCatalog {
    pub libs: Vec<NumFunctionLibrary>,
}

/// Every numeric function, library by library.
pub open spec fn all_num_funcs(libs: Seq<NumFunctionLibrary>, n: int) -> Seq<NumFunction>
    decreases n,
{
    if n <= 0 {
        Seq::empty()
    } else {
        all_num_funcs(libs, n - 1) + libs[n - 1].funcs@
    }
}

/// The position of the first numeric function named `name` in `fs[j..]`.
pub open spec fn find_num(fs: Seq<NumFunction>, name: Seq<char>, j: int) -> Option<int>
    decreases fs.len() - j,
{
    if j < 0 || j >= fs.len() {
        None
    } else if fs[j].name@ == name {
        Some(j)
    } else {
        find_num(fs, name, j + 1)
    }
}

/// The first numeric function named `name` (library by library, in order), if any.
pub open spec fn first_num_func(libs: Seq<NumFunctionLibrary>, name: Seq<char>) -> Option<NumFunction> {
    match find_num(all_num_funcs(libs, libs.len() as int), name, 0) {
        Some(k) => Some(all_num_funcs(libs, libs.len() as int)[k]),
        None => None,
    }
}

impl NumCatalog {
    /// Every numeric function, library by library.
    pub fn function_list(&self) -> (r: Vec<&NumFunction>)
        ensures
            r@.len() == all_num_funcs(self.libs@, self.libs@.len() as int).len(),
            forall|k: int| 0 <= k < r@.len() ==> *(#[trigger] r@[k]) == all_num_funcs(self.libs@, self.libs@.len() as int)[k],
    {
        let mut out: Vec<&NumFunction> = Vec::new();
        let mut i: usize = 0;
        while i < self.libs.len()
            invariant
                i <= self.libs@.len(),
                out@.len() == all_num_funcs(self.libs@, i as int).len(),
                forall|k: int| 0 <= k < out@.len() ==> *(#[trigger] out@[k]) == all_num_funcs(self.libs@, i as int)[k],
            decreases self.libs@.len() - i,
        {
            let fs = &self.libs[i].funcs;
            let ghost base = all_num_funcs(self.libs@, i as int);
            let mut j: usize = 0;
            while j < fs.len()
                invariant
                    i < self.libs@.len(),
                    *fs == self.libs@[i as int].funcs,
                    base == all_num_funcs(self.libs@, i as int),
                    j <= fs@.len(),
                    out@.len() == base.len() + j,
                    forall|k: int| 0 <= k < out@.len() ==> *(#[trigger] out@[k]) == (base + fs@)[k],
                decreases fs@.len() - j,
            {
                out.push(&fs[j]);
                j = j + 1;
            }
            assert(all_num_funcs(self.libs@, i + 1) == base + fs@);
            i = i + 1;
        }
        out
    }

    /// The first numeric function named `name`, library by library.
    pub fn get_func(&self, name: &str) -> (r: Option<&NumFunction>)
        ensures
            match first_num_func(self.libs@, name@) {
                Some(f) => r matches Some(g) && *g == f,
                None => r.is_none(),
            },
    {
        let all = self.function_list();
        let ghost fs = all_num_funcs(self.libs@, self.libs@.len() as int);
        let mut k: usize = 0;
        while k < all.len()
            invariant
                all@.len() == fs.len(),
                forall|m: int| 0 <= m < all@.len() ==> *(#[trigger] all@[m]) == fs[m],
                fs == all_num_funcs(self.libs@, self.libs@.len() as int),
                k <= all@.len(),
                find_num(fs, name@, 0) == find_num(fs, name@, k as int),
            decreases all@.len() - k,
        {
            let f: &NumFunction = all[k];
            if str_eq(f.name.as_str(), name) {
                assert(*f == fs[k as int]);
                return Some(f);
            }
            k = k + 1;
        }
        None
    }

    /// Whether some numeric function is named `name`.
    pub fn has_func_name(&self, name: &str) -> (r: bool)
        ensures
            r == first_num_func(self.libs@, name@).is_some(),
    {
        self.get_func(name).is_some()
    }

    /// The documentation of the first numeric function named `name`.
    pub fn get_doc(&self, name: &str) -> (r: Option<String>)
        ensures
            match first_num_func(self.libs@, name@) {
                Some(f) => r matches Some(d) && d@ == f.doc@,
                None => r.is_none(),
            },
    {
        match self.get_func(name) {
            Some(f) => Some(f.doc.clone()),
            None => None,
        }
    }

    /// The argument names of the first numeric function named `name`.
    pub fn get_args(&self, name: &str) -> (r: Option<Vec<String>>)
        ensures
            match first_num_func(self.libs@, name@) {
                Some(f) => r matches Some(a) && views(a@) == views(f.args@),
                None => r.is_none(),
            },
    {
        match self.get_func(name) {
            Some(f) => {
                let mut out: Vec<String> = Vec::new();
                let mut k: usize = 0;
                while k < f.args.len()
                    invariant
                        k <= f.args@.len(),
                        out@.len() == k,
                        forall|m: int| 0 <= m < k ==> #[trigger] out@[m]@ == f.args@[m]@,
                    decreases f.args@.len() - k,
                {
                    out.push(f.args[k].clone());
                    k = k + 1;
                }
                assert(views(out@) =~= views(f.args@));
                Some(out)
            },
            None => None,
        }
    }
}

/// The first `n` rows are accepted exactly when each holds an aggregate whose
/// initial, state and final functions each name a function of `fs`.
proof fn lemma_rows_accepted(fs: Seq<Function>, rows: Seq<Option<Aggregate>>, n: int)
    requires
        0 <= n <= rows.len(),
    ensures
        first_bad_row(fs, rows, n) is None <==> forall|k: int| 0 <= k < n ==> {
            &&& (#[trigger] rows[k]) is Some
            &&& exists|i: int| 0 <= i < fs.len() && (#[trigger] fs[i]).name@ == rows[k]->0.init_func@
            &&& exists|i: int| 0 <= i < fs.len() && (#[trigger] fs[i]).name@ == rows[k]->0.state_func@
            &&& exists|i: int| 0 <= i < fs.len() && (#[trigger] fs[i]).name@ == rows[k]->0.final_func@
        },
    decreases n,
{
    if n > 0 {
        lemma_rows_accepted(fs, rows, n - 1);
    }
}

/// Reloading aggregates succeeds exactly when every registry row was read and
/// names, as its initial, state and final functions, three functions that the
/// library has; an aggregate missing any one of them is refused.
pub proof fn lemma_reload_accepts_exactly_complete(fs: Seq<Function>, rows: Seq<Option<Aggregate>>)
    ensures
        first_bad_row(fs, rows, rows.len() as int) is None <==> forall|k: int| 0 <= k < rows.len() ==> {
            &&& (#[trigger] rows[k]) is Some
            &&& exists|i: int| 0 <= i < fs.len() && (#[trigger] fs[i]).name@ == rows[k]->0.init_func@
            &&& exists|i: int| 0 <= i < fs.len() && (#[trigger] fs[i]).name@ == rows[k]->0.state_func@
            &&& exists|i: int| 0 <= i < fs.len() && (#[trigger] fs[i]).name@ == rows[k]->0.final_func@
        },
{
    lemma_rows_accepted(fs, rows, rows.len() as int);
}


/// After aggregates are reloaded without complaint, every row was read and every
/// aggregate's initial, state and final functions are functions of the library.
pub proof fn lemma_reloaded_aggregates_complete(fs: Seq<Function>, rows: Seq<Option<Aggregate>>, n: int)
    requires
        0 <= n <= rows.len(),
        first_bad_row(fs, rows, n) is None,
    ensures
        forall|k: int| 0 <= k < n ==> (#[trigger] rows[k]) is Some && aggregate_complete(fs, rows[k]->0),
    decreases n,
{
    if n > 0 {
        assert(first_bad_row(fs, rows, n - 1) is None);
        lemma_reloaded_aggregates_complete(fs, rows, n - 1);
    }
}

/// Without a prefix every library is listed, in order, with its name and state.
pub proof fn lemma_all_libs_listed(libs: Seq<FunctionLibrary>, n: int)
    requires
        0 <= n <= libs.len(),
    ensures
        listed_libs(libs, None, n).len() == n,
        forall|k: int| 0 <= k < n ==> #[trigger] listed_libs(libs, None, n)[k] == (libs[k].name@, libs[k].active),
    decreases n,
{
    if n > 0 {
        lemma_all_libs_listed(libs, n - 1);
    }
}

/// A numeric library never lists more functions than the registry had rows.
pub proof fn lemma_readable_at_most(rows: Seq<Option<NumFunctionRow>>, n: int)
    requires
        0 <= n <= rows.len(),
    ensures
        readable_rows(rows, n).len() <= n,
    decreases n,
{
    if n > 0 {
        lemma_readable_at_most(rows, n - 1);
    }
}

} // verus!
