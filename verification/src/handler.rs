//! Handler registration and routing: a registered endpoint entry, the
//! helper that collects registrations and prints the help table, the
//! registry that maps endpoint keys to entries, and the routing
//! decision that enforces the allowed verbs.
//!
//! An entry's callback is not part of this data: callers keep their
//! callbacks keyed by the same endpoint strings and invoke them when
//! routing answers with an entry's index.

use vstd::prelude::*;
use crate::strutil::{spec_join, spec_pad, join, str_eq};

verus! {

/// One registered endpoint: its key (the exact request path), free-form
/// property tags, the verbs it accepts (`None` means every canonical
/// verb), and an optional human-readable description.
pub struct Function {
    pub key: String,
    pub properties: Vec<String>,
    pub methods: Option<Vec<String>>,
    pub description: Option<String>,
}

/// The nine canonical verbs, accepted by every entry that sets no
/// explicit verb list.
pub open spec fn nine_verbs() -> Seq<Seq<char>> {
    seq![
        "GET"@,
        "HEAD"@,
        "POST"@,
        "PUT"@,
        "DELETE"@,
        "CONNECT"@,
        "OPTIONS"@,
        "TRACE"@,
        "PATCH"@,
    ]
}

/// The verbs an entry accepts: its explicit list when it has one, else
/// the nine canonical verbs.
pub open spec fn spec_effective_methods(f: Function) -> Seq<Seq<char>> {
    match f.methods {
        Option::Some(ms) => ms.deep_view(),
        Option::None => nine_verbs(),
    }
}

/// An entry with no explicit verb list accepts every one of the nine
/// canonical verbs; an entry with an explicit list accepts exactly the
/// verbs it lists.
pub proof fn lemma_effective_methods(f: Function)
    ensures
        f.methods is None ==> forall|i: int|
            0 <= i < nine_verbs().len() ==> spec_effective_methods(f).contains(
                #[trigger] nine_verbs()[i],
            ),
        f.methods is Some ==> spec_effective_methods(f) == f.methods.unwrap().deep_view(),
{
    if f.methods is None {
        assert forall|i: int|
            0 <= i < nine_verbs().len() implies spec_effective_methods(f).contains(
            #[trigger] nine_verbs()[i],
        ) by {
            assert(spec_effective_methods(f)[i] == nine_verbs()[i]);
        }
    }
}

pub(crate) fn strs_to_strings(v: &Vec<&str>) -> (r: Vec<String>)
    ensures
        r.deep_view() == v.deep_view(),
{
    let mut out: Vec<String> = Vec::new();
    let mut i: usize = 0;
    while i < v.len()
        invariant
            0 <= i <= v@.len(),
            out@.len() == i,
            forall|k: int| 0 <= k < i ==> (#[trigger] out@[k])@ == v@[k]@,
        decreases v@.len() - i,
    {
        out.push(String::from_str(v[i]));
        i = i + 1;
    }
    proof {
        assert forall|k: int| 0 <= k < v@.len() implies out.deep_view()[k] == v.deep_view()[k] by {
            assert(out@[k]@ == v@[k]@);
        }
        assert(out.deep_view() =~= v.deep_view());
    }
    out
}

impl Function {
    /// Builds an entry from owned parts.
    pub fn new(
        key: String,
        properties: Vec<&str>,
        methods: Option<Vec<String>>,
        description: Option<String>,
    ) -> (f: Function)
        ensures
            f.key == key,
            f.properties.deep_view() == properties.deep_view(),
            f.methods == methods,
            f.description == description,
    {
        Function { key, properties: strs_to_strings(&properties), methods, description }
    }

    /// Builds an entry from borrowed parts.
    pub fn n(
        key: &str,
        properties: Vec<&str>,
        methods: Option<Vec<&str>>,
        description: Option<&str>,
    ) -> (f: Function)
        ensures
            f.key@ == key@,
            f.properties.deep_view() == properties.deep_view(),
            f.methods.deep_view() == methods.deep_view(),
            f.description.deep_view() == description.deep_view(),
    {
        Function {
            key: String::from_str(key),
            properties: strs_to_strings(&properties),
            methods: match methods {
                Option::Some(ms) => Option::Some(strs_to_strings(&ms)),
                Option::None => Option::None,
            },
            description: match description {
                Option::Some(d) => Option::Some(String::from_str(d)),
                Option::None => Option::None,
            },
        }
    }
}

/// The verbs an entry accepts, as [`spec_effective_methods`] describes.
pub fn effective_methods(f: &Function) -> (r: Vec<String>)
    ensures
        r.deep_view() == spec_effective_methods(*f),
{
    match &f.methods {
        Option::Some(ms) => {
            let r = ms.clone();
            proof {
                assert(r.deep_view() =~= ms.deep_view());
            }
            r
        },
        Option::None => {
            let mut r: Vec<String> = Vec::new();
            r.push(String::from_str("GET"));
            r.push(String::from_str("HEAD"));
            r.push(String::from_str("POST"));
            r.push(String::from_str("PUT"));
            r.push(String::from_str("DELETE"));
            r.push(String::from_str("CONNECT"));
            r.push(String::from_str("OPTIONS"));
            r.push(String::from_str("TRACE"));
            r.push(String::from_str("PATCH"));
            proof {
                assert(r.deep_view() =~= nine_verbs());
            }
            r
        },
    }
}

/// Whether `m` occurs in the list, compared character for character.
pub fn contains_str(v: &Vec<String>, m: &str) -> (r: bool)
    ensures
        r == v.deep_view().contains(m@),
{
    let mut i: usize = 0;
    while i < v.len()
        invariant
            0 <= i <= v@.len(),
            forall|j: int| 0 <= j < i ==> v.deep_view()[j] != m@,
        decreases v@.len() - i,
    {
        if str_eq(v[i].as_str(), m) {
            proof {
                assert(v.deep_view()[i as int] == m@);
            }
            return true;
        }
        i = i + 1;
    }
    proof {
        if v.deep_view().contains(m@) {
            let j = choose|j: int| 0 <= j < v.deep_view().len() && v.deep_view()[j] == m@;
            assert(v.deep_view()[j] != m@);
        }
    }
    false
}

/// The plain-text body of a rejection by verb: the allowed verbs joined
/// with `", "` after a fixed preamble.
pub open spec fn spec_unsupported_body(methods: Seq<Seq<char>>) -> Seq<char> {
    "Unsupported method. Supported methods: "@ + spec_join(methods, ", "@)
}

/// Renders the rejection-by-verb body, as [`spec_unsupported_body`]
/// describes.
pub fn unsupported_method_body(methods: &Vec<String>) -> (r: String)
    ensures
        r@ == spec_unsupported_body(methods.deep_view()),
{
    let mut out = String::from_str("Unsupported method. Supported methods: ");
    let joined = join(methods, ", ");
    out.append(joined.as_str());
    out
}

/// The registry: endpoint entries with pairwise distinct keys.
pub struct Registry {
    pub entries: Vec<Function>,
}

/// How one request is answered: no entry for the path (status 404 with
/// an empty body), an entry whose verbs exclude the request's method
/// (status 405 with the allowed list), or the entry to invoke.
pub enum RouteDecision {
    NotFound,
    MethodNotAllowed(Vec<String>),
    Allowed(usize),
}

impl Registry {
    /// Keys are pairwise distinct.
    pub open spec fn wf(self) -> bool {
        forall|i: int, j: int|
            0 <= i < j < self.entries@.len() ==> (#[trigger] self.entries@[i]).key@ != (
            #[trigger] self.entries@[j]).key@
    }

    /// An empty registry.
    pub fn new() -> (r: Registry)
        ensures
            r.wf(),
            r.entries@.len() == 0,
    {
        Registry { entries: Vec::new() }
    }

    /// The index of the entry registered for `key`, if any; with
    /// distinct keys it is the only one.
    pub fn lookup(&self, key: &str) -> (r: Option<usize>)
        ensures
            match r {
                Some(i) => i < self.entries@.len() && self.entries@[i as int].key@ == key@,
                None => forall|j: int|
                    0 <= j < self.entries@.len() ==> (#[trigger] self.entries@[j]).key@ != key@,
            },
    {
        let mut i: usize = 0;
        while i < self.entries.len()
            invariant
                0 <= i <= self.entries@.len(),
                forall|j: int| 0 <= j < i ==> (#[trigger] self.entries@[j]).key@ != key@,
            decreases self.entries@.len() - i,
        {
            if str_eq(self.entries[i].key.as_str(), key) {
                return Some(i);
            }
            i = i + 1;
        }
        None
    }

    /// Registers `f` under its key: an entry already registered for
    /// that key is replaced, every other entry is kept, and nothing
    /// else appears.
    pub fn insert(&mut self, f: Function)
        requires
            old(self).wf(),
        ensures
            final(self).wf(),
            final(self).entries@.contains(f),
            forall|j: int|
                0 <= j < old(self).entries@.len() && (#[trigger] old(self).entries@[j]).key@
                    != f.key@ ==> final(self).entries@.contains(old(self).entries@[j]),
            forall|i: int|
                0 <= i < final(self).entries@.len() ==> (#[trigger] final(self).entries@[i]) == f
                    || (old(self).entries@.contains(final(self).entries@[i])
                    && final(self).entries@[i].key@ != f.key@),
    {
        let mut i: usize = 0;
        while i < self.entries.len()
            invariant
                0 <= i <= self.entries@.len(),
                self == old(self),
                old(self).wf(),
                forall|j: int| 0 <= j < i ==> (#[trigger] self.entries@[j]).key@ != f.key@,
            decreases self.entries@.len() - i,
        {
            if str_eq(self.entries[i].key.as_str(), f.key.as_str()) {
                self.entries[i] = f;
                proof {
                    let oe = old(self).entries@;
                    let fe = self.entries@;
                    assert(fe =~= oe.update(i as int, f));
                    assert(fe[i as int] == f);
                    assert(oe[i as int].key@ == f.key@);
                    assert forall|a: int, b: int|
                        0 <= a < b < fe.len() implies (#[trigger] fe[a]).key@ != (
                    #[trigger] fe[b]).key@ by {
                        if a != i && b != i {
                            assert(fe[a] == oe[a]);
                            assert(fe[b] == oe[b]);
                        } else if a == i {
                            assert(fe[b] == oe[b]);
                            assert(oe[b].key@ != oe[i as int].key@);
                        } else {
                            assert(fe[a] == oe[a]);
                            assert(oe[a].key@ != oe[i as int].key@);
                        }
                    }
                    assert forall|j: int|
                        0 <= j < oe.len() && (#[trigger] oe[j]).key@ != f.key@ implies
                        fe.contains(oe[j]) by {
                        assert(j != i);
                        assert(fe[j] == oe[j]);
                    }
                }
                return ;
            }
            i = i + 1;
        }
        self.entries.push(f);
        proof {
            let oe = old(self).entries@;
            let fe = self.entries@;
            assert(fe.last() == f);
            assert(fe.contains(f));
            assert forall|j: int|
                0 <= j < oe.len() && (#[trigger] oe[j]).key@ != f.key@ implies fe.contains(
                oe[j],
            ) by {
                assert(fe[j] == oe[j]);
            }
            assert forall|k: int| 0 <= k < fe.len() && k < oe.len() implies oe.contains(
                #[trigger] fe[k],
            ) by {
                assert(fe[k] == oe[k]);
            }
        }
    }

    /// Decides one request: 404 when no entry carries the path, 405
    /// with the entry's allowed verbs when the method is excluded, and
    /// the entry's index when the method is allowed.
    pub fn route(&self, endpoint: &str, method: &str) -> (r: RouteDecision)
        ensures
            match r {
                RouteDecision::NotFound => forall|j: int|
                    0 <= j < self.entries@.len() ==> (#[trigger] self.entries@[j]).key@
                        != endpoint@,
                RouteDecision::MethodNotAllowed(allowed) => exists|i: int|
                    0 <= i < self.entries@.len() && (#[trigger] self.entries@[i]).key@ == endpoint@
                        && allowed.deep_view() == spec_effective_methods(self.entries@[i])
                        && !spec_effective_methods(self.entries@[i]).contains(method@),
                RouteDecision::Allowed(i) => i < self.entries@.len()
                    && self.entries@[i as int].key@ == endpoint@ && spec_effective_methods(
                    self.entries@[i as int],
                ).contains(method@),
            },
    {
        match self.lookup(endpoint) {
            None => RouteDecision::NotFound,
            Some(i) => {
                let ms = effective_methods(&self.entries[i]);
                if contains_str(&ms, method) {
                    RouteDecision::Allowed(i)
                } else {
                    RouteDecision::MethodNotAllowed(ms)
                }
            },
        }
    }
}

/// The description cell of the help table: the entry's description, or
/// a fixed placeholder when it has none.
pub open spec fn spec_opt_desc(d: Option<String>) -> Seq<char> {
    match d {
        Option::Some(s) => s@,
        Option::None => "No description provided."@,
    }
}

/// The methods cell of the help table: the explicit verbs joined with
/// `", "`, or the word `None` when every verb is accepted.
pub open spec fn spec_methods_cell(m: Option<Vec<String>>) -> Seq<char> {
    match m {
        Option::Some(ms) => spec_join(ms.deep_view(), ", "@),
        Option::None => "None"@,
    }
}

/// The widest key among the entries.
pub open spec fn spec_key_width(s: Seq<Function>) -> nat
    decreases s.len(),
{
    if s.len() == 0 {
        0
    } else {
        let w = spec_key_width(s.drop_last());
        let l = s.last().key@.len();
        if l > w {
            l
        } else {
            w
        }
    }
}

/// The widest joined property list among the entries.
pub open spec fn spec_props_width(s: Seq<Function>) -> nat
    decreases s.len(),
{
    if s.len() == 0 {
        0
    } else {
        let w = spec_props_width(s.drop_last());
        let l = spec_join(s.last().properties.deep_view(), ", "@).len();
        if l > w {
            l
        } else {
            w
        }
    }
}

/// The widest description among the entries.
pub open spec fn spec_desc_width(s: Seq<Function>) -> nat
    decreases s.len(),
{
    if s.len() == 0 {
        0
    } else {
        let w = spec_desc_width(s.drop_last());
        let l = spec_opt_desc(s.last().description).len();
        if l > w {
            l
        } else {
            w
        }
    }
}

/// One body row of the help table, with each cell padded to its
/// column's width.
pub open spec fn spec_table_row(f: Function, wk: nat, wp: nat, wd: nat) -> Seq<char> {
    spec_pad(f.key@, wk) + " | "@ + spec_pad(spec_join(f.properties.deep_view(), ", "@), wp)
        + " | "@ + spec_pad(spec_opt_desc(f.description), wd) + " | "@ + spec_methods_cell(
        f.methods,
    ) + "\n"@
}

/// The body rows of the help table, in registration order.
pub open spec fn spec_table_rows(s: Seq<Function>, wk: nat, wp: nat, wd: nat) -> Seq<char>
    decreases s.len(),
{
    if s.len() == 0 {
        Seq::empty()
    } else {
        spec_table_rows(s.drop_last(), wk, wp, wd) + spec_table_row(s.last(), wk, wp, wd)
    }
}

/// The two heading rows of the help table.
pub open spec fn spec_table_header(wk: nat, wp: nat, wd: nat) -> Seq<char> {
    spec_pad("Key"@, wk) + " | "@ + spec_pad("Properties"@, wp) + " | "@ + spec_pad(
        "Description"@,
        wd,
    ) + " | "@ + "Methods\n"@ + spec_pad("----"@, wk) + " | "@ + spec_pad("-----------"@, wp)
        + " | "@ + spec_pad("------------"@, wd) + " | "@ + "--------\n"@
}

/// The whole help table: headings, then one row per entry, each column
/// as wide as its widest cell.
pub open spec fn spec_display_table(s: Seq<Function>) -> Seq<char> {
    spec_table_header(spec_key_width(s), spec_props_width(s), spec_desc_width(s))
        + spec_table_rows(s, spec_key_width(s), spec_props_width(s), spec_desc_width(s))
}

/// The entry registered last among those carrying `key`, if any; a
/// later registration shadows an earlier one.
pub open spec fn last_with_key(s: Seq<Function>, key: Seq<char>) -> Option<Function>
    decreases s.len(),
{
    if s.len() == 0 {
        Option::None
    } else if s.last().key@ == key {
        Option::Some(s.last())
    } else {
        last_with_key(s.drop_last(), key)
    }
}

/// The registration helper: collects endpoint entries in order and
/// renders the help table over them.
pub struct FuncHelper {
    pub store: Vec<Function>,
}

impl FuncHelper {
    /// Starts the registration list with its one built-in entry: the
    /// cache-touching endpoint `/addfloat`, reachable by POST only.
    pub fn new() -> (r: FuncHelper)
        ensures
            r.store@.len() == 1,
            r.store@[0].key@ == "/addfloat"@,
            r.store@[0].properties@.len() == 0,
            r.store@[0].methods is Some,
            r.store@[0].methods.unwrap().deep_view() =~= seq!["POST"@],
            r.store@[0].description is Some,
            r.store@[0].description.unwrap()@ == "Add an entry to the cache."@,
    {
        let mut methods: Vec<&str> = Vec::new();
        methods.push("POST");
        let props: Vec<&str> = Vec::new();
        proof {
            assert(props.deep_view().len() == 0);
            assert(methods.deep_view() =~= seq!["POST"@]);
        }
        let f = Function::n("/addfloat", props, Some(methods), Some("Add an entry to the cache."));
        proof {
            assert(f.properties@.len() == f.properties.deep_view().len());
        }
        let mut store: Vec<Function> = Vec::new();
        store.push(f);
        FuncHelper { store }
    }

    /// Appends one registration to the list.
    pub fn add(&mut self, func: Function)
        ensures
            final(self).store@ == old(self).store@.push(func),
    {
        self.store.push(func);
    }

    /// Right-pads a string with spaces to at least `len` characters, as
    /// [`spec_pad`] describes.
    pub fn pad(str: String, len: usize) -> (r: String)
        ensures
            r@ == spec_pad(str@, len as nat),
    {
        let n = str.unicode_len();
        if n >= len {
            return str;
        }
        let ghost orig = str@;
        let mut out = str;
        let mut j: usize = n;
        while j < len
            invariant
                n <= j <= len,
                n == orig.len(),
                out@ == orig + Seq::new((j - n) as nat, |i: int| ' '),
            decreases len - j,
        {
            out.append(" ");
            proof {
                reveal_strlit(" ");
                assert(out@ =~= orig + Seq::new((j + 1 - n) as nat, |i: int| ' '));
            }
            j = j + 1;
        }
        proof {
            assert(out@ =~= spec_pad(orig, len as nat));
        }
        out
    }

    /// Builds the registry from the collected registrations: each key
    /// maps to the entry registered last under it.
    pub fn get_func_map_raw(self) -> (r: Registry)
        ensures
            r.wf(),
            forall|i: int|
                0 <= i < r.entries@.len() ==> last_with_key(
                    self.store@,
                    (#[trigger] r.entries@[i]).key@,
                ) == Option::Some(r.entries@[i]),
            forall|k: Seq<char>|
                (#[trigger] last_with_key(self.store@, k)) is Some ==> exists|i: int|
                    0 <= i < r.entries@.len() && (#[trigger] r.entries@[i]).key@ == k,
    {
        let ghost all = self.store@;
        let mut st = self.store;
        let mut reg = Registry::new();
        let ghost mut j: int = 0;
        proof {
            assert(st@ =~= all.skip(0));
            assert(all.take(0) =~= Seq::<Function>::empty());
        }
        while st.len() > 0
            invariant
                0 <= j <= all.len(),
                st@ == all.skip(j),
                reg.wf(),
                forall|i: int|
                    0 <= i < reg.entries@.len() ==> last_with_key(
                        all.take(j),
                        (#[trigger] reg.entries@[i]).key@,
                    ) == Option::Some(reg.entries@[i]),
                forall|k: Seq<char>|
                    (#[trigger] last_with_key(all.take(j), k)) is Some ==> exists|i: int|
                        0 <= i < reg.entries@.len() && (#[trigger] reg.entries@[i]).key@ == k,
            decreases st@.len(),
        {
            let ghost old_reg = reg.entries@;
            let f = st.remove(0);
            proof {
                assert(f == all[j]);
                assert(st@ =~= all.skip(j + 1));
            }
            reg.insert(f);
            proof {
                let t1 = all.take(j + 1);
                assert(t1.last() == all[j]);
                assert(t1.drop_last() =~= all.take(j));
                assert(last_with_key(t1, f.key@) == Option::Some(f));
                assert forall|k: Seq<char>| k != f.key@ implies last_with_key(t1, k)
                    == last_with_key(all.take(j), k) by {}
                assert forall|i: int|
                    0 <= i < reg.entries@.len() implies last_with_key(
                    t1,
                    (#[trigger] reg.entries@[i]).key@,
                ) == Option::Some(reg.entries@[i]) by {
                    let e = reg.entries@[i];
                    if e == f {
                    } else {
                        assert(old_reg.contains(e) && e.key@ != f.key@);
                        let w = choose|w: int| 0 <= w < old_reg.len() && old_reg[w] == e;
                        assert(last_with_key(all.take(j), e.key@) == Option::Some(e));
                    }
                }
                assert forall|k: Seq<char>| (#[trigger] last_with_key(t1, k)) is Some implies exists|i: int|
                    0 <= i < reg.entries@.len() && (#[trigger] reg.entries@[i]).key@ == k by {
                    if k == f.key@ {
                        let w = choose|w: int|
                            0 <= w < reg.entries@.len() && reg.entries@[w] == f;
                        assert(reg.entries@[w].key@ == k);
                    } else {
                        assert(last_with_key(all.take(j), k) is Some);
                        let w0 = choose|w0: int|
                            0 <= w0 < old_reg.len() && (#[trigger] old_reg[w0]).key@ == k;
                        assert(last_with_key(all.take(j), old_reg[w0].key@) == Option::Some(
                            old_reg[w0],
                        ));
                        assert(old_reg[w0].key@ != f.key@);
                        assert(reg.entries@.contains(old_reg[w0]));
                        let w = choose|w: int|
                            0 <= w < reg.entries@.len() && reg.entries@[w] == old_reg[w0];
                        assert(reg.entries@[w].key@ == k);
                    }
                }
                j = j + 1;
            }
        }
        proof {
            assert(all.skip(j).len() == 0);
            assert(j == all.len());
            assert(all.take(j) =~= all);
        }
        reg
    }
}

/// The description cell, as [`spec_opt_desc`] describes.
fn opt_desc(d: &Option<String>) -> (r: String)
    ensures
        r@ == spec_opt_desc(*d),
{
    match d {
        Option::Some(t) => t.clone(),
        Option::None => String::from_str("No description provided."),
    }
}

/// The methods cell, as [`spec_methods_cell`] describes.
fn methods_cell(m: &Option<Vec<String>>) -> (r: String)
    ensures
        r@ == spec_methods_cell(*m),
{
    match m {
        Option::Some(ms) => join(ms, ", "),
        Option::None => String::from_str("None"),
    }
}

/// One body row of the help table, as [`spec_table_row`] describes.
fn table_row(f: &Function, wk: usize, wp: usize, wd: usize) -> (r: String)
    ensures
        r@ == spec_table_row(*f, wk as nat, wp as nat, wd as nat),
{
    let mut out = FuncHelper::pad(f.key.clone(), wk);
    out.append(" | ");
    let c = FuncHelper::pad(join(&f.properties, ", "), wp);
    out.append(c.as_str());
    out.append(" | ");
    let c = FuncHelper::pad(opt_desc(&f.description), wd);
    out.append(c.as_str());
    out.append(" | ");
    let c = methods_cell(&f.methods);
    out.append(c.as_str());
    out.append("\n");
    proof {
        assert(out@ =~= spec_table_row(*f, wk as nat, wp as nat, wd as nat));
    }
    out
}

impl FuncHelper {
    /// Renders the help table over the collected registrations, as
    /// [`spec_display_table`] describes.
    pub fn display(&self) -> (r: String)
        ensures
            r@ == spec_display_table(self.store@),
    {
        let mut wk: usize = 0;
        let mut wp: usize = 0;
        let mut wd: usize = 0;
        let mut i: usize = 0;
        proof {
            assert(self.store@.take(0) =~= Seq::<Function>::empty());
        }
        while i < self.store.len()
            invariant
                0 <= i <= self.store@.len(),
                wk == spec_key_width(self.store@.take(i as int)),
                wp == spec_props_width(self.store@.take(i as int)),
                wd == spec_desc_width(self.store@.take(i as int)),
            decreases self.store@.len() - i,
        {
            let kl = self.store[i].key.unicode_len();
            if kl > wk {
                wk = kl;
            }
            let pj = join(&self.store[i].properties, ", ");
            let pl = pj.unicode_len();
            if pl > wp {
                wp = pl;
            }
            let de = opt_desc(&self.store[i].description);
            let dl = de.unicode_len();
            if dl > wd {
                wd = dl;
            }
            proof {
                let t1 = self.store@.take(i + 1);
                assert(t1.last() == self.store@[i as int]);
                assert(t1.drop_last() =~= self.store@.take(i as int));
            }
            i = i + 1;
        }
        proof {
            assert(self.store@.take(self.store@.len() as int) =~= self.store@);
        }
        let ghost gwk = wk as nat;
        let ghost gwp = wp as nat;
        let ghost gwd = wd as nat;
        let mut out = FuncHelper::pad(String::from_str("Key"), wk);
        out.append(" | ");
        let c = FuncHelper::pad(String::from_str("Properties"), wp);
        out.append(c.as_str());
        out.append(" | ");
        let c = FuncHelper::pad(String::from_str("Description"), wd);
        out.append(c.as_str());
        out.append(" | ");
        out.append("Methods\n");
        let c = FuncHelper::pad(String::from_str("----"), wk);
        out.append(c.as_str());
        out.append(" | ");
        let c = FuncHelper::pad(String::from_str("-----------"), wp);
        out.append(c.as_str());
        out.append(" | ");
        let c = FuncHelper::pad(String::from_str("------------"), wd);
        out.append(c.as_str());
        out.append(" | ");
        out.append("--------\n");
        proof {
            assert(out@ =~= spec_table_header(gwk, gwp, gwd));
            assert(self.store@.take(0) =~= Seq::<Function>::empty());
            assert(out@ =~= spec_table_header(gwk, gwp, gwd) + spec_table_rows(
                self.store@.take(0),
                gwk,
                gwp,
                gwd,
            ));
        }
        let mut i: usize = 0;
        while i < self.store.len()
            invariant
                0 <= i <= self.store@.len(),
                gwk == spec_key_width(self.store@),
                gwp == spec_props_width(self.store@),
                gwd == spec_desc_width(self.store@),
                gwk == wk as nat,
                gwp == wp as nat,
                gwd == wd as nat,
                out@ == spec_table_header(gwk, gwp, gwd) + spec_table_rows(
                    self.store@.take(i as int),
                    gwk,
                    gwp,
                    gwd,
                ),
                gwk <= usize::MAX && gwp <= usize::MAX && gwd <= usize::MAX,
            decreases self.store@.len() - i,
        {
            let row = table_row(&self.store[i], wk, wp, wd);
            out.append(row.as_str());
            proof {
                let t1 = self.store@.take(i + 1);
                assert(t1.last() == self.store@[i as int]);
                assert(t1.drop_last() =~= self.store@.take(i as int));
                assert(out@ =~= spec_table_header(gwk, gwp, gwd) + spec_table_rows(
                    t1,
                    gwk,
                    gwp,
                    gwd,
                ));
            }
            i = i + 1;
        }
        proof {
            assert(self.store@.take(self.store@.len() as int) =~= self.store@);
        }
        out
    }
}

} // verus!
