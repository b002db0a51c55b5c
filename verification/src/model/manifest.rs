//! A model's manifest: what it is, and where in the model the users, hosts
//! and procedures are defined.
use vstd::prelude::*;
use crate::command::env::{env_insert, pairs_view, unique_keys, without_key, law_env_insert};
use crate::text::str_equal;
use crate::model::defs::Opath;
use crate::model::node::{Node, NodeV, Value, ValueV, props_view, lemma_props_view};
use crate::text::to_owned_string;

verus! {

/// Where the definitions are: expressions selecting the users, the hosts
/// and the procedures, and further named expressions.
#[derive(Debug)]
pub struct Defines {
    users: Opath,
    hosts: Opath,
    procs: Opath,
    custom: Vec<(String, Opath)>,
    user_defined: bool,
}

/// Where the definitions are, as mathematics sees it.
pub struct DefinesV {
    pub users: Seq<char>,
    pub hosts: Seq<char>,
    pub procs: Seq<char>,
    pub custom: Seq<(Seq<char>, Seq<char>)>,
    pub user_defined: bool,
}

impl View for Defines {
    type V = DefinesV;

    closed spec fn view(&self) -> DefinesV {
        DefinesV {
            users: self.users@,
            hosts: self.hosts@,
            procs: self.procs@,
            custom: named_exprs_view(self.custom@),
            user_defined: self.user_defined,
        }
    }
}

/// The view of a list of named expressions.
pub open spec fn named_exprs_view(v: Seq<(String, Opath)>) -> Seq<(Seq<char>, Seq<char>)> {
    Seq::new(v.len(), |i: int| (v[i].0@, v[i].1@))
}

/// The default places: users under `conf.users`, hosts under `conf.hosts`,
/// procedures wherever a `proc` property is set under `proc` or `probe`.
pub open spec fn default_defines() -> DefinesV {
    DefinesV {
        users: "$.conf.users.*"@,
        hosts: "$.conf.hosts.*"@,
        procs: "$.(proc, probe).**[@.proc != null]"@,
        custom: Seq::empty(),
        user_defined: false,
    }
}

/// The node describing the places: an object of the expressions' texts,
/// `users`, `hosts`, `procs`, then each further one, set in order.
pub open spec fn defines_props(d: DefinesV) -> Seq<(Seq<char>, Seq<char>)>
    decreases d.custom.len(),
{
    if d.custom.len() == 0 {
        env_insert(env_insert(env_insert(Seq::empty(), "users"@, d.users), "hosts"@, d.hosts), "procs"@, d.procs)
    } else {
        let last = d.custom.last();
        env_insert(defines_props(DefinesV { custom: d.custom.drop_last(), ..d }), last.0, last.1)
    }
}

impl Defines {
    /// No name of a further expression occurs twice.
    #[verifier::type_invariant]
    closed spec fn names_unique(&self) -> bool {
        unique_keys(named_exprs_view(self.custom@))
    }

    /// The default places, not defined by the user.
    pub fn new() -> (d: Defines)
        ensures
            d@ == default_defines(),
    {
        let d = Defines {
            users: Opath::new("$.conf.users.*"),
            hosts: Opath::new("$.conf.hosts.*"),
            procs: Opath::new("$.(proc, probe).**[@.proc != null]"),
            custom: Vec::new(),
            user_defined: false,
        };
        assert(d@.custom =~= Seq::<(Seq<char>, Seq<char>)>::empty());
        d
    }

    /// Places defined by the user; the names of the further expressions are
    /// distinct, as the keys of a map are.
    pub fn with_values(users: Opath, hosts: Opath, procs: Opath, custom: Vec<(String, Opath)>) -> (d: Defines)
        requires
            unique_keys(named_exprs_view(custom@)),
        ensures
            d@ == (DefinesV {
                users: users@,
                hosts: hosts@,
                procs: procs@,
                custom: named_exprs_view(custom@),
                user_defined: true,
            }),
    {
        Defines { users, hosts, procs, custom, user_defined: true }
    }

    /// Sets the further expression named `name` to `expr`: an expression
    /// already under that name is dropped and the new one goes to the back.
    pub fn insert_custom(&mut self, name: String, expr: Opath)
        ensures
            final(self)@ == (DefinesV { custom: env_insert(old(self)@.custom, name@, expr@), ..old(self)@ }),
    {
        proof {
            use_type_invariant(&*self);
        }
        let ghost m = self@.custom;
        let mut entries: Vec<(String, Opath)> = Vec::new();
        std::mem::swap(&mut entries, &mut self.custom);
        let ghost orig = entries@;
        assert(named_exprs_view(orig) == m);
        let n = entries.len();
        let mut kept: Vec<(String, Opath)> = Vec::new();
        let mut i: usize = 0;
        while i < n
            invariant
                n == orig.len(),
                i <= n,
                named_exprs_view(orig) == m,
                entries@ == orig.subrange(i as int, n as int),
                named_exprs_view(kept@) == without_key(m.take(i as int), name@),
            decreases n - i,
        {
            let e = entries.remove(0);
            assert(e == orig[i as int]);
            let ghost before = m.take(i as int);
            assert(m.take(i + 1).drop_last() =~= before);
            assert(m.take(i + 1).last() == (e.0@, e.1@));
            if !str_equal(e.0.as_str(), name.as_str()) {
                kept.push(e);
                assert(named_exprs_view(kept@) =~= without_key(before, name@).push((e.0@, e.1@)));
            }
            assert(entries@ =~= orig.subrange(i + 1, n as int));
            i = i + 1;
        }
        assert(m.take(n as int) =~= m);
        let ghost kv = name@;
        let ghost ev = expr@;
        kept.push((name, expr));
        assert(named_exprs_view(kept@) =~= without_key(m, kv).push((kv, ev)));
        proof {
            law_env_insert(m, kv, ev);
        }
        self.custom = kept;
    }

    /// The expression selecting the users.
    pub fn users(&self) -> (o: &Opath)
        ensures
            o@ == self@.users,
    {
        &self.users
    }

    /// The expression selecting the hosts.
    pub fn hosts(&self) -> (o: &Opath)
        ensures
            o@ == self@.hosts,
    {
        &self.hosts
    }

    /// The expression selecting the procedures.
    pub fn procs(&self) -> (o: &Opath)
        ensures
            o@ == self@.procs,
    {
        &self.procs
    }

    /// The further named expressions, in order; no name occurs twice.
    pub fn custom(&self) -> (c: &Vec<(String, Opath)>)
        ensures
            named_exprs_view(c@) == self@.custom,
            unique_keys(self@.custom),
    {
        proof {
            use_type_invariant(self);
        }
        &self.custom
    }

    /// Whether the user defined the places.
    pub fn is_user_defined(&self) -> (b: bool)
        ensures
            b == self@.user_defined,
    {
        self.user_defined
    }

    /// The places as a node: an object of the expressions' texts.
    pub fn to_node(&self) -> (n: Node)
        ensures
            n@.value matches ValueV::Object(props) && Seq::new(props.len(), |i: int| (props[i].0, match props[i].1.value {
                ValueV::String(s) => s,
                _ => Seq::empty(),
            })) == defines_props(self@),
            forall|i: int| #![auto] 0 <= i < n@.value->Object_0.len() ==> n@.value->Object_0[i].1.value is String,
    {
        let mut vars = crate::command::env::EnvVars::new();
        assert(vars@ =~= Seq::<(Seq<char>, Seq<char>)>::empty());
        vars.insert(to_owned_string("users"), self.users.expr.clone());
        vars.insert(to_owned_string("hosts"), self.hosts.expr.clone());
        vars.insert(to_owned_string("procs"), self.procs.expr.clone());
        proof {
            reveal_strlit("users");
            reveal_strlit("hosts");
            reveal_strlit("procs");
            assert(vars@ =~= defines_props(DefinesV { custom: Seq::empty(), ..self@ }));
        }
        let mut i: usize = 0;
        while i < self.custom.len()
            invariant
                i <= self.custom@.len(),
                vars@ == defines_props(DefinesV { custom: self@.custom.take(i as int), ..self@ }),
            decreases self.custom@.len() - i,
        {
            vars.insert(self.custom[i].0.clone(), self.custom[i].1.expr.clone());
            proof {
                assert(self@.custom.take(i + 1).drop_last() =~= self@.custom.take(i as int));
                assert(self@.custom.take(i + 1).last() == (self.custom@[i as int].0@, self.custom@[i as int].1@));
            }
            i = i + 1;
        }
        assert(self@.custom.take(self@.custom.len() as int) =~= self@.custom);
        let entries = vars.entries();
        let mut props: Vec<(String, Node)> = Vec::new();
        let mut k: usize = 0;
        while k < entries.len()
            invariant
                k <= entries@.len(),
                pairs_view(entries@) == defines_props(self@),
                props@.len() == k,
                forall|j: int| 0 <= j < k ==> #[trigger] props@[j].0@ == entries@[j].0@ && props@[j].1@.value == ValueV::String(entries@[j].1@),
            decreases entries@.len() - k,
        {
            let v = entries[k].1.clone();
            let node = Node::new(Value::String(v));
            assert(node@.value == ValueV::String(entries@[k as int].1@));
            props.push((entries[k].0.clone(), node));
            k = k + 1;
        }
        let n = Node::new(Value::Object(props));
        proof {
            lemma_props_view(props@, props@.len() as int);
            let pv = props_view(props@, props@.len() as int);
            assert(Seq::new(pv.len(), |i: int| (pv[i].0, match pv[i].1.value {
                ValueV::String(s) => s,
                _ => Seq::empty(),
            })) =~= pairs_view(entries@));
        }
        n
    }
}

/// What a model is: its authors and a description.
#[derive(Debug)]
pub struct ManifestInfo {
    authors: Vec<String>,
    description: String,
}

impl ManifestInfo {
    /// No authors and an empty description.
    pub fn new() -> (i: ManifestInfo)
        ensures
            i.authors_v() == Seq::<Seq<char>>::empty(),
            i.description_v() == Seq::<char>::empty(),
    {
        let i = ManifestInfo { authors: Vec::new(), description: String::new() };
        assert(i.authors_v() =~= Seq::<Seq<char>>::empty());
        i
    }

    /// The given authors and description.
    pub fn with_values(authors: Vec<String>, description: String) -> (i: ManifestInfo)
        ensures
            i.authors_v() == Seq::new(authors@.len(), |k: int| authors@[k]@),
            i.description_v() == description@,
    {
        ManifestInfo { authors, description }
    }

    /// The authors, as values.
    pub closed spec fn authors_v(&self) -> Seq<Seq<char>> {
        Seq::new(self.authors@.len(), |k: int| self.authors@[k]@)
    }

    /// The description, as a value.
    pub closed spec fn description_v(&self) -> Seq<char> {
        self.description@
    }

    /// The authors.
    pub fn authors(&self) -> (a: &Vec<String>)
        ensures
            Seq::new(a@.len(), |k: int| a@[k]@) == self.authors_v(),
    {
        &self.authors
    }

    /// The description.
    pub fn description(&self) -> (d: &str)
        ensures
            d@ == self.description_v(),
    {
        self.description.as_str()
    }
}

/// A model's manifest: what the model is, and where its definitions are.
#[derive(Debug)]
pub struct Manifest {
    info: ManifestInfo,
    defines: Defines,
}

impl Manifest {
    /// The default manifest: no information, the default places.
    pub fn new() -> (m: Manifest)
        ensures
            m.defines_v() == default_defines(),
            m.info_v() == (Seq::<Seq<char>>::empty(), Seq::<char>::empty()),
    {
        Manifest { info: ManifestInfo::new(), defines: Defines::new() }
    }

    /// The manifest with the given parts.
    pub fn with_values(info: ManifestInfo, defines: Defines) -> (m: Manifest)
        ensures
            m.defines_v() == defines@,
            m.info_v() == (info.authors_v(), info.description_v()),
    {
        Manifest { info, defines }
    }

    /// Where the definitions are, as a value.
    pub closed spec fn defines_v(&self) -> DefinesV {
        self.defines@
    }

    /// What the model is, as a value.
    pub closed spec fn info_v(&self) -> (Seq<Seq<char>>, Seq<char>) {
        (self.info.authors_v(), self.info.description_v())
    }

    /// Where the definitions are.
    pub fn defines(&self) -> (d: &Defines)
        ensures
            d@ == self.defines_v(),
    {
        &self.defines
    }

    /// What the model is.
    pub fn info(&self) -> (i: &ManifestInfo)
        ensures
            (i.authors_v(), i.description_v()) == self.info_v(),
    {
        &self.info
    }
}

} // verus!
