use vstd::prelude::*;
use crate::mapping::MappingType;
use crate::property_map::PropertyMap;
use crate::text::{str_eq, views};

verus! {

/// The data columns a mapping kind draws from, in order: lines and scatters
/// from `x` and `y`; bars from `x`, `y`, `width` and `height`; texts from `x`,
/// `y` and `text`; areas from `x`, `ymin` and `ymax`; surfaces from `x`, `y`
/// and `z`.
pub open spec fn column_keys(t: MappingType) -> Seq<Seq<char>> {
    match t {
        MappingType::Line => seq!["x"@, "y"@],
        MappingType::Scatter => seq!["x"@, "y"@],
        MappingType::Bar => seq!["x"@, "y"@, "width"@, "height"@],
        MappingType::Text => seq!["x"@, "y"@, "text"@],
        MappingType::Area => seq!["x"@, "ymin"@, "ymax"@],
        MappingType::Surface => seq!["x"@, "y"@, "z"@],
    }
}

/// The position of the column `col` among the kind's columns.
pub open spec fn key_index(t: MappingType, col: Seq<char>) -> Option<int> {
    if exists|k: int| 0 <= k < column_keys(t).len() && #[trigger] column_keys(t)[k] == col {
        Some(choose|k: int| 0 <= k < column_keys(t).len() && #[trigger] column_keys(t)[k] == col)
    } else {
        None
    }
}

/// No column name occurs twice for a kind.
pub proof fn lemma_keys_distinct(t: MappingType)
    ensures
        forall|i: int, j: int| 0 <= i < j < column_keys(t).len() ==> #[trigger] column_keys(t)[i] != #[trigger] column_keys(t)[j],
{
    reveal_strlit("x");
    reveal_strlit("y");
    reveal_strlit("width");
    reveal_strlit("height");
    reveal_strlit("text");
    reveal_strlit("ymin");
    reveal_strlit("ymax");
    reveal_strlit("z");
    assert("x"@[0] == 'x' && "y"@[0] == 'y' && "z"@[0] == 'z');
    assert("width"@[0] == 'w' && "height"@[0] == 'h' && "text"@[0] == 't');
    assert("ymin"@[0] == 'y' && "ymax"@[0] == 'y' && "ymin"@[2] == 'i' && "ymax"@[2] == 'a');
    assert("x"@.len() == 1 && "y"@.len() == 1 && "ymin"@.len() == 4);
}

/// The columns of kind `t`.
fn keys_of(t: MappingType) -> (r: Vec<&'static str>)
    ensures
        r@.len() == column_keys(t).len(),
        forall|k: int| 0 <= k < r@.len() ==> (#[trigger] r@[k])@ == column_keys(t)[k],
{
    match t {
        MappingType::Line => vec!["x", "y"],
        MappingType::Scatter => vec!["x", "y"],
        MappingType::Bar => vec!["x", "y", "width", "height"],
        MappingType::Text => vec!["x", "y", "text"],
        MappingType::Area => vec!["x", "ymin", "ymax"],
        MappingType::Surface => vec!["x", "y", "z"],
    }
}

/// The names of the table columns a mapping draws, one per data column of its kind.
pub struct ColumnNames {
    ty: MappingType,
    names: Vec<String>,
}

impl View for ColumnNames {
    type V = Seq<Seq<char>>;

    closed spec fn view(&self) -> Seq<Seq<char>> {
        views(self.names@)
    }
}

impl ColumnNames {
    /// The mapping kind.
    pub closed spec fn kind(&self) -> MappingType {
        self.ty
    }

    /// One name per data column of the kind.
    pub closed spec fn wf(&self) -> bool {
        self.names@.len() == column_keys(self.ty).len()
    }

    /// Column names for a new mapping of kind `ty`: every column is `None`.
    pub fn new(ty: MappingType) -> (r: ColumnNames)
        ensures
            r.wf(),
            r.kind() == ty,
            r@ == Seq::new(column_keys(ty).len(), |k: int| "None"@),
    {
        let keys = keys_of(ty);
        let mut names: Vec<String> = Vec::new();
        let mut k: usize = 0;
        while k < keys.len()
            invariant
                k <= keys@.len(),
                names@.len() == k,
                forall|q: int| 0 <= q < k ==> #[trigger] names@[q]@ == "None"@,
            decreases keys@.len() - k,
        {
            names.push("None".to_owned());
            k = k + 1;
        }
        let r = ColumnNames { ty, names };
        assert(r@ =~= Seq::new(column_keys(ty).len(), |k: int| "None"@));
        r
    }

    /// Column names read from a mapping's layout properties (each of the kind's
    /// columns must be among them).
    pub fn from_properties(ty: MappingType, props: &PropertyMap) -> (r: ColumnNames)
        requires
            props.wf(),
            forall|k: int| 0 <= k < column_keys(ty).len() ==> props@.contains_key(#[trigger] column_keys(ty)[k]),
        ensures
            r.wf(),
            r.kind() == ty,
            r@ == Seq::new(column_keys(ty).len(), |k: int| props@[column_keys(ty)[k]]),
    {
        let keys = keys_of(ty);
        let mut names: Vec<String> = Vec::new();
        let mut k: usize = 0;
        while k < keys.len()
            invariant
                props.wf(),
                forall|q: int| 0 <= q < column_keys(ty).len() ==> props@.contains_key(#[trigger] column_keys(ty)[q]),
                keys@.len() == column_keys(ty).len(),
                forall|q: int| 0 <= q < keys@.len() ==> (#[trigger] keys@[q])@ == column_keys(ty)[q],
                k <= keys@.len(),
                names@.len() == k,
                forall|q: int| 0 <= q < k ==> #[trigger] names@[q]@ == props@[column_keys(ty)[q]],
            decreases keys@.len() - k,
        {
            assert(props@.contains_key(column_keys(ty)[k as int]));
            let v = match props.get(keys[k]) {
                Some(v) => v,
                None => String::new(),
            };
            names.push(v);
            k = k + 1;
        }
        let r = ColumnNames { ty, names };
        assert(r@ =~= Seq::new(column_keys(ty).len(), |k: int| props@[column_keys(ty)[k]]));
        r
    }

    fn index_of(&self, col: &str) -> (r: Option<usize>)
        requires
            self.wf(),
        ensures
            match key_index(self.ty, col@) {
                Some(k) => r == Some(k as usize),
                None => r is None,
            },
    {
        proof { lemma_keys_distinct(self.ty); }
        let keys = keys_of(self.ty);
        let mut k: usize = 0;
        while k < keys.len()
            invariant
                keys@.len() == column_keys(self.ty).len(),
                forall|q: int| 0 <= q < keys@.len() ==> (#[trigger] keys@[q])@ == column_keys(self.ty)[q],
                forall|i: int, j: int| 0 <= i < j < column_keys(self.ty).len() ==> #[trigger] column_keys(self.ty)[i] != #[trigger] column_keys(self.ty)[j],
                k <= keys@.len(),
                forall|q: int| 0 <= q < k ==> column_keys(self.ty)[q] != col@,
            decreases keys@.len() - k,
        {
            if str_eq(keys[k], col) {
                assert(column_keys(self.ty)[k as int] == col@);
                return Some(k);
            }
            k = k + 1;
        }
        None
    }

    /// The table column drawn as `col`, or an empty name when the kind has no
    /// such column.
    pub fn get_col_name(&self, col: &str) -> (r: String)
        requires
            self.wf(),
        ensures
            match key_index(self.kind(), col@) {
                Some(k) => r@ == self@[k],
                None => r@ == Seq::<char>::empty(),
            },
    {
        match self.index_of(col) {
            Some(k) => self.names[k].clone(),
            None => String::new(),
        }
    }

    /// Draws column `col` from the table column `name`; a column the kind does
    /// not have is ignored.
    pub fn set_col_name(&mut self, col: &str, name: &str)
        requires
            old(self).wf(),
        ensures
            final(self).wf(),
            final(self).kind() == old(self).kind(),
            match key_index(old(self).kind(), col@) {
                Some(k) => final(self)@ == old(self)@.update(k, name@),
                None => final(self)@ == old(self)@,
            },
    {
        match self.index_of(col) {
            Some(k) => {
                self.names.set(k, name.to_owned());
                assert(self@ =~= old(self)@.update(k as int, name@));
            },
            None => {},
        }
    }

    /// Draws the kind's columns, in order, from the given table columns; a
    /// number of names other than the kind's number of columns is refused.
    pub fn set_col_names(&mut self, cols: Vec<String>) -> (r: Result<(), &'static str>)
        requires
            old(self).wf(),
        ensures
            final(self).wf(),
            final(self).kind() == old(self).kind(),
            cols@.len() == column_keys(old(self).kind()).len() ==> r is Ok && final(self)@ == views(cols@),
            cols@.len() != column_keys(old(self).kind()).len() ==> {
                &&& r matches Err(m) && m@ == "Wrong number of columns."@
                &&& final(self)@ == old(self)@
            },
    {
        if cols.len() != self.names.len() {
            return Err("Wrong number of columns.");
        }
        let mut k: usize = 0;
        while k < cols.len()
            invariant
                self.wf(),
                self.ty == old(self).ty,
                cols@.len() == self.names@.len(),
                k <= cols@.len(),
                forall|q: int| 0 <= q < k ==> #[trigger] self.names@[q]@ == cols@[q]@,
            decreases cols@.len() - k,
        {
            self.names.set(k, cols[k].clone());
            k = k + 1;
        }
        assert(self@ =~= views(cols@));
        Ok(())
    }

    /// The (column, table column) pairs, in the kind's order.
    pub fn get_ordered_col_names(&self) -> (r: Vec<(String, String)>)
        requires
            self.wf(),
        ensures
            r@.len() == column_keys(self.kind()).len(),
            forall|k: int| 0 <= k < r@.len() ==> (#[trigger] r@[k]).0@ == column_keys(self.kind())[k] && r@[k].1@ == self@[k],
    {
        let keys = keys_of(self.ty);
        let mut out: Vec<(String, String)> = Vec::new();
        let mut k: usize = 0;
        while k < keys.len()
            invariant
                self.wf(),
                keys@.len() == column_keys(self.ty).len(),
                forall|q: int| 0 <= q < keys@.len() ==> (#[trigger] keys@[q])@ == column_keys(self.ty)[q],
                k <= keys@.len(),
                out@.len() == k,
                forall|q: int| 0 <= q < k ==> (#[trigger] out@[q]).0@ == column_keys(self.ty)[q] && out@[q].1@ == self@[q],
            decreases keys@.len() - k,
        {
            assert(self@[k as int] == self.names@[k as int]@);
            let key = keys[k].to_owned();
            let name = self.names[k].clone();
            assert(key@ == column_keys(self.ty)[k as int]);
            out.push((key, name));
            k = k + 1;
        }
        out
    }

    /// The table column drawn as each of the kind's columns, by column.
    pub fn get_hash_col_names(&self) -> (r: PropertyMap)
        requires
            self.wf(),
        ensures
            r.wf(),
            r@ == Map::new(
                |c: Seq<char>| key_index(self.kind(), c) is Some,
                |c: Seq<char>| self@[key_index(self.kind(), c)->0],
            ),
    {
        proof { lemma_keys_distinct(self.ty); }
        let keys = keys_of(self.ty);
        let mut m = PropertyMap::new();
        let mut k: usize = 0;
        while k < keys.len()
            invariant
                self.wf(),
                m.wf(),
                keys@.len() == column_keys(self.ty).len(),
                forall|q: int| 0 <= q < keys@.len() ==> (#[trigger] keys@[q])@ == column_keys(self.ty)[q],
                forall|i: int, j: int| 0 <= i < j < column_keys(self.ty).len() ==> #[trigger] column_keys(self.ty)[i] != #[trigger] column_keys(self.ty)[j],
                k <= keys@.len(),
                m@ == Map::new(
                    |c: Seq<char>| exists|q: int| 0 <= q < k && #[trigger] column_keys(self.ty)[q] == c,
                    |c: Seq<char>| self@[choose|q: int| 0 <= q < k && #[trigger] column_keys(self.ty)[q] == c],
                ),
            decreases keys@.len() - k,
        {
            let ghost before = m@;
            m.insert(keys[k].to_owned(), self.names[k].clone());
            let ghost kk = k as int;
            assert(m@ =~= Map::new(
                |c: Seq<char>| exists|q: int| 0 <= q < kk + 1 && #[trigger] column_keys(self.ty)[q] == c,
                |c: Seq<char>| self@[choose|q: int| 0 <= q < kk + 1 && #[trigger] column_keys(self.ty)[q] == c],
            )) by {
                assert forall|c: Seq<char>| #[trigger] m@.contains_key(c) == (exists|q: int| 0 <= q < kk + 1 && #[trigger] column_keys(self.ty)[q] == c) by {
                    if c == column_keys(self.ty)[kk] {
                        assert(column_keys(self.ty)[kk] == c);
                    }
                }
                assert forall|c: Seq<char>| m@.contains_key(c) implies #[trigger] m@[c] == self@[choose|q: int| 0 <= q < kk + 1 && #[trigger] column_keys(self.ty)[q] == c] by {
                    let w = choose|q: int| 0 <= q < kk + 1 && #[trigger] column_keys(self.ty)[q] == c;
                    if c == column_keys(self.ty)[kk] {
                        assert(w == kk);
                    } else {
                        assert(w < kk);
                    }
                }
            }
            k = k + 1;
        }
        assert(m@ =~= Map::new(
            |c: Seq<char>| key_index(self.ty, c) is Some,
            |c: Seq<char>| self@[key_index(self.ty, c)->0],
        ));
        m
    }
}

/// Drawing a column of the kind from a table column and then asking which table
/// column it draws from gives that table column back; the kind's other columns
/// keep theirs.
pub proof fn lemma_set_then_get(t: MappingType, names: Seq<Seq<char>>, col: Seq<char>, name: Seq<char>, other: Seq<char>)
    requires
        names.len() == column_keys(t).len(),
        key_index(t, col) is Some,
    ensures
        names.update(key_index(t, col)->0, name)[key_index(t, col)->0] == name,
        key_index(t, other) is Some && other != col ==> names.update(key_index(t, col)->0, name)[key_index(t, other)->0]
            == names[key_index(t, other)->0],
{
    let k = key_index(t, col)->0;
    assert(0 <= k < column_keys(t).len() && column_keys(t)[k] == col);
    if key_index(t, other) is Some && other != col {
        let j = key_index(t, other)->0;
        assert(column_keys(t)[j] == other);
        assert(j != k);
    }
}

} // verus!
