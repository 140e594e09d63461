use vstd::prelude::*;
use crate::error::NwtError;

verus! {

/// Ordered (name, value) attribute pairs, as text.
pub type AttrList = Seq<(Seq<char>, Seq<char>)>;

/// Variables in order of registration, each with its attribute pairs.
pub type VarList = Seq<(Seq<char>, AttrList)>;

pub open spec fn pairs_view(v: Seq<(String, String)>) -> AttrList {
    v.map_values(|p: (String, String)| (p.0@, p.1@))
}

pub open spec fn vars_view(v: Seq<(String, Vec<(String, String)>)>) -> VarList {
    v.map_values(|p: (String, Vec<(String, String)>)| (p.0@, pairs_view(p.1@)))
}

/// The value of the first pair at or after `i` whose name is `name`.
pub open spec fn find_attr(a: AttrList, name: Seq<char>, i: int) -> Option<Seq<char>>
    decreases a.len() - i,
{
    if i < 0 || i >= a.len() {
        None
    } else if a[i].0 == name {
        Some(a[i].1)
    } else {
        find_attr(a, name, i + 1)
    }
}

/// The value of the first pair named `name`.
pub open spec fn first_attr(a: AttrList, name: Seq<char>) -> Option<Seq<char>> {
    find_attr(a, name, 0)
}

/// The index of the first variable at or after `i` named `name`, or -1.
pub open spec fn find_var(v: VarList, name: Seq<char>, i: int) -> int
    decreases v.len() - i,
{
    if i < 0 || i >= v.len() {
        -1
    } else if v[i].0 == name {
        i
    } else {
        find_var(v, name, i + 1)
    }
}

/// The index of the variable named `name`, or -1.
pub open spec fn var_index(v: VarList, name: Seq<char>) -> int {
    find_var(v, name, 0)
}

/// No two variables share a name.
pub open spec fn names_distinct(v: VarList) -> bool {
    forall|a: int, b: int| 0 <= a < b < v.len() ==> (#[trigger] v[a]).0 != (#[trigger] v[b]).0
}

/// Registers a variable: a known one is left as it is, a new one is appended
/// with no attributes.
pub open spec fn add_var_spec(v: VarList, name: Seq<char>) -> VarList {
    if var_index(v, name) >= 0 {
        v
    } else {
        v.push((name, Seq::empty()))
    }
}

/// Appends an attribute to a variable, registering the variable first if
/// it is unknown.
pub open spec fn add_var_attr_spec(v: VarList, name: Seq<char>, key: Seq<char>, value: Seq<char>) -> VarList {
    let i = var_index(v, name);
    if i >= 0 {
        v.update(i, (v[i].0, v[i].1.push((key, value))))
    } else {
        v.push((name, seq![(key, value)]))
    }
}

proof fn lemma_find_var_absent(v: VarList, name: Seq<char>, i: int)
    requires
        0 <= i,
        find_var(v, name, i) == -1,
    ensures
        forall|j: int| i <= j < v.len() ==> (#[trigger] v[j]).0 != name,
    decreases v.len() - i,
{
    if i < v.len() {
        lemma_find_var_absent(v, name, i + 1);
    }
}

/// The attributes of a variable, if it is registered.
pub open spec fn var_attrs(v: VarList, name: Seq<char>) -> Option<AttrList> {
    let i = var_index(v, name);
    if i >= 0 {
        Some(v[i].1)
    } else {
        None
    }
}

/// The metadata store: global attributes, per-variable attributes and the
/// ordered region identifiers.
#[derive(Debug, Clone)]
pub struct JsonData {
    global_attrs: Vec<(String, String)>,
    per_variable_attrs: Vec<(String, Vec<(String, String)>)>,
    polyids: Vec<String>,
}

impl JsonData {
    /// The global attributes, in order of addition.
    pub closed spec fn globals(&self) -> AttrList {
        pairs_view(self.global_attrs@)
    }

    /// The variables, in order of registration, with their attributes.
    pub closed spec fn variables(&self) -> VarList {
        vars_view(self.per_variable_attrs@)
    }

    /// The region identifiers, in order.
    pub closed spec fn polyid_list(&self) -> Seq<Seq<char>> {
        self.polyids@.map_values(|s: String| s@)
    }

    /// An empty store.
    pub fn new() -> (r: Self)
        ensures
            r.globals() == Seq::<(Seq<char>, Seq<char>)>::empty(),
            r.variables() == Seq::<(Seq<char>, AttrList)>::empty(),
            r.polyid_list() == Seq::<Seq<char>>::empty(),
            names_distinct(r.variables()),
    {
        let r = JsonData { global_attrs: Vec::new(), per_variable_attrs: Vec::new(), polyids: Vec::new() };
        assert(r.globals() =~= Seq::empty());
        assert(r.variables() =~= Seq::empty());
        assert(r.polyid_list() =~= Seq::empty());
        r
    }

    /// Appends a global attribute; names may repeat.
    pub fn add_global_attr(&mut self, key: String, value: String)
        ensures
            final(self).globals() == old(self).globals().push((key@, value@)),
            final(self).variables() == old(self).variables(),
            final(self).polyid_list() == old(self).polyid_list(),
    {
        self.global_attrs.push((key, value));
        assert(self.globals() =~= old(self).globals().push((key@, value@)));
    }

    fn find_variable(&self, name: &String) -> (r: Option<usize>)
        ensures
            r is None ==> var_index(self.variables(), name@) == -1,
            r matches Some(i) ==> i == var_index(self.variables(), name@) && i < self.per_variable_attrs@.len(),
    {
        let ghost v = self.variables();
        let mut i: usize = 0;
        while i < self.per_variable_attrs.len()
            invariant
                i <= self.per_variable_attrs@.len(),
                v == self.variables(),
                var_index(v, name@) == find_var(v, name@, i as int),
            decreases self.per_variable_attrs@.len() - i,
        {
            if self.per_variable_attrs[i].0 == *name {
                return Some(i);
            }
            i = i + 1;
        }
        None
    }

    /// Registers a variable with no attributes; registering a known variable
    /// again leaves the store unchanged.
    pub fn add_variable(&mut self, variable_name: &String)
        ensures
            final(self).variables() == add_var_spec(old(self).variables(), variable_name@),
            final(self).globals() == old(self).globals(),
            final(self).polyid_list() == old(self).polyid_list(),
            names_distinct(old(self).variables()) ==> names_distinct(final(self).variables()),
    {
        let ghost v = self.variables();
        match self.find_variable(variable_name) {
            Some(_) => {},
            None => {
                let empty: Vec<(String, String)> = Vec::new();
                assert(pairs_view(empty@) =~= Seq::empty());
                self.per_variable_attrs.push((variable_name.clone(), empty));
                assert(self.variables() =~= v.push((variable_name@, Seq::empty())));
                proof {
                    lemma_find_var_absent(v, variable_name@, 0);
                }
            },
        }
    }

    /// Appends an attribute to a variable, registering the variable first if
    /// it is unknown.
    pub fn add_variable_attr(&mut self, var_name: &String, key: String, value: String)
        ensures
            final(self).variables() == add_var_attr_spec(old(self).variables(), var_name@, key@, value@),
            final(self).globals() == old(self).globals(),
            final(self).polyid_list() == old(self).polyid_list(),
            names_distinct(old(self).variables()) ==> names_distinct(final(self).variables()),
    {
        let ghost v = self.variables();
        let ghost kv = (key@, value@);
        match self.find_variable(var_name) {
            Some(i) => {
                let (k, mut attrs) = self.per_variable_attrs.remove(i);
                attrs.push((key, value));
                self.per_variable_attrs.insert(i, (k, attrs));
                assert(pairs_view(attrs@) =~= v[i as int].1.push(kv));
                assert(self.variables() =~= v.update(i as int, (v[i as int].0, v[i as int].1.push(kv))));
            },
            None => {
                let mut attrs: Vec<(String, String)> = Vec::new();
                attrs.push((key, value));
                self.per_variable_attrs.push((var_name.clone(), attrs));
                assert(pairs_view(attrs@) =~= seq![kv]);
                assert(self.variables() =~= v.push((var_name@, seq![kv])));
                proof {
                    lemma_find_var_absent(v, var_name@, 0);
                }
            },
        }
    }

    /// Appends a region identifier.
    pub fn add_polyid(&mut self, polyid: String)
        ensures
            final(self).polyid_list() == old(self).polyid_list().push(polyid@),
            final(self).globals() == old(self).globals(),
            final(self).variables() == old(self).variables(),
    {
        self.polyids.push(polyid);
        assert(self.polyid_list() =~= old(self).polyid_list().push(polyid@));
    }

    /// The value of the first global attribute named `name`, or `NotFound`.
    pub fn get_global_attr(&self, name: &String) -> (r: Result<String, NwtError>)
        ensures
            match first_attr(self.globals(), name@) {
                Some(v) => r matches Ok(s) && s@ == v,
                None => r == Err::<String, NwtError>(NwtError::NotFound),
            },
    {
        let ghost a = self.globals();
        let mut i: usize = 0;
        while i < self.global_attrs.len()
            invariant
                i <= self.global_attrs@.len(),
                a == self.globals(),
                first_attr(a, name@) == find_attr(a, name@, i as int),
            decreases self.global_attrs@.len() - i,
        {
            if self.global_attrs[i].0 == *name {
                return Ok(self.global_attrs[i].1.clone());
            }
            i = i + 1;
        }
        Err(NwtError::NotFound)
    }

    /// All global attributes, in order of addition.
    pub fn get_global_attrs(&self) -> (r: &Vec<(String, String)>)
        ensures
            pairs_view(r@) == self.globals(),
    {
        &self.global_attrs
    }

    /// All variables with their attributes, in order of registration.
    pub fn get_variables(&self) -> (r: &Vec<(String, Vec<(String, String)>)>)
        ensures
            vars_view(r@) == self.variables(),
    {
        &self.per_variable_attrs
    }

    /// The region identifiers, in order.
    pub fn get_polyids(&self) -> (r: &Vec<String>)
        ensures
            r@.map_values(|s: String| s@) == self.polyid_list(),
    {
        &self.polyids
    }

    /// The attributes of a variable, or `None` if it is not registered.
    pub fn get_var_attrs(&self, variable_name: &String) -> (r: Option<&Vec<(String, String)>>)
        ensures
            match var_attrs(self.variables(), variable_name@) {
                Some(a) => r matches Some(v) && pairs_view(v@) == a,
                None => r is None,
            },
    {
        match self.find_variable(variable_name) {
            Some(i) => Some(&self.per_variable_attrs[i].1),
            None => None,
        }
    }

    /// The value of the first attribute named `attr_name` of the variable
    /// `variable_name`; `NotFound` if the variable or the attribute is absent.
    pub fn get_var_attr(&self, variable_name: &String, attr_name: &String) -> (r: Result<String, NwtError>)
        ensures
            match var_attrs(self.variables(), variable_name@) {
                Some(a) => match first_attr(a, attr_name@) {
                    Some(v) => r matches Ok(s) && s@ == v,
                    None => r == Err::<String, NwtError>(NwtError::NotFound),
                },
                None => r == Err::<String, NwtError>(NwtError::NotFound),
            },
    {
        match self.get_var_attrs(variable_name) {
            Some(attrs) => {
                let ghost a = pairs_view(attrs@);
                let mut i: usize = 0;
                while i < attrs.len()
                    invariant
                        i <= attrs@.len(),
                        a == pairs_view(attrs@),
                        var_attrs(self.variables(), variable_name@) == Some(a),
                        first_attr(a, attr_name@) == find_attr(a, attr_name@, i as int),
                    decreases attrs@.len() - i,
                {
                    if attrs[i].0 == *attr_name {
                        return Ok(attrs[i].1.clone());
                    }
                    i = i + 1;
                }
                Err(NwtError::NotFound)
            },
            None => Err(NwtError::NotFound),
        }
    }
}

} // verus!
