//! Template variables for hook commands and tab titles.

use vstd::prelude::*;

use crate::text::{chars_of, replace_all, replace_chars, string_of};

verus! {

/// Named values substituted for `{name}` in templates, in the order they
/// were first set.
#[derive(Debug)]
pub struct HookContext {
    vars: Vec<(String, String)>,
}

pub open spec fn var_views(v: Seq<(String, String)>) -> Seq<(Seq<char>, Seq<char>)> {
    v.map_values(|p: (String, String)| (p.0@, p.1@))
}

pub open spec fn key_at(vars: Seq<(Seq<char>, Seq<char>)>, k: Seq<char>) -> Option<int> {
    if exists|i: int| 0 <= i < vars.len() && vars[i].0 == k {
        Some(choose|i: int| 0 <= i < vars.len() && vars[i].0 == k && forall|j: int| 0 <= j < i ==> vars[j].0 != k)
    } else {
        None
    }
}

/// The variables after setting `k` to `v`: an existing entry is updated in
/// place, a new one goes at the end.
pub open spec fn set_var(vars: Seq<(Seq<char>, Seq<char>)>, k: Seq<char>, v: Seq<char>) -> Seq<(Seq<char>, Seq<char>)> {
    match key_at(vars, k) {
        Some(i) => vars.update(i, (k, v)),
        None => vars.push((k, v)),
    }
}

/// No name is set twice.
pub open spec fn unique_keys(vars: Seq<(Seq<char>, Seq<char>)>) -> bool {
    forall|i: int, j: int| 0 <= i < j < vars.len() ==> vars[i].0 != vars[j].0
}

pub open spec fn placeholder(k: Seq<char>) -> Seq<char> {
    seq!['{'] + k + seq!['}']
}

/// Each variable's placeholder replaced by its value, one variable after
/// the other.
pub open spec fn render_spec(vars: Seq<(Seq<char>, Seq<char>)>, t: Seq<char>) -> Seq<char>
    decreases vars.len(),
{
    if vars.len() == 0 {
        t
    } else {
        render_spec(vars.drop_first(), replace_all(t, placeholder(vars[0].0), vars[0].1))
    }
}

impl HookContext {
    pub closed spec fn vars(&self) -> Seq<(Seq<char>, Seq<char>)> {
        var_views(self.vars@)
    }

    pub fn new() -> (r: Self)
        ensures
            r.vars() == Seq::<(Seq<char>, Seq<char>)>::empty(),
            unique_keys(r.vars()),
    {
        let r = HookContext { vars: Vec::new() };
        assert(var_views(r.vars@) == Seq::<(Seq<char>, Seq<char>)>::empty());
        r
    }

    pub fn set(self, key: &str, value: &str) -> (r: Self)
        ensures
            r.vars() == set_var(self.vars(), key@, value@),
            unique_keys(self.vars()) ==> unique_keys(r.vars()),
    {
        let ghost vs = self.vars();
        let mut vars = self.vars;
        assert(vs == var_views(vars@));
        let mut i: usize = 0;
        while i < vars.len()
            invariant
                vs == var_views(vars@),
                vs == self.vars(),
                i <= vars.len(),
                forall|j: int| 0 <= j < i ==> vs[j].0 != key@,
            decreases vars.len() - i,
        {
            assert(vs[i as int].0 == vars@[i as int].0@);
            if crate::text::same_chars(&chars_of(vars[i].0.as_str()), &chars_of(key)) {
                assert(0 <= i < vs.len() && vs[i as int].0 == key@ && forall|j: int| 0 <= j < i ==> vs[j].0 != key@);
                let ghost k = key_at(vs, key@)->Some_0;
                assert(k == i as int) by {
                    assert(vs[k].0 == key@);
                    if k < i as int {
                    } else if k > i as int {
                    }
                }
                vars.set(i, (String::from_str(key), String::from_str(value)));
                assert(key_at(vs, key@) == Some(i as int));
                assert(var_views(vars@) == vs.update(i as int, (key@, value@)));
                assert(set_var(vs, key@, value@) == vs.update(i as int, (key@, value@)));
                let r = HookContext { vars };
                assert(r.vars() == var_views(vars@));
                assert(unique_keys(vs) ==> unique_keys(r.vars())) by {
                    if unique_keys(vs) {
                        assert forall|a: int, b: int| 0 <= a < b < r.vars().len() implies r.vars()[a].0 != r.vars()[b].0 by {
                            assert(r.vars()[a].0 == vs[a].0 && r.vars()[b].0 == vs[b].0);
                        }
                    }
                }
                return r;
            }
            i += 1;
        }
        vars.push((String::from_str(key), String::from_str(value)));
        assert(var_views(vars@) == vs.push((key@, value@)));
        assert(key_at(vs, key@) is None);
        HookContext { vars }
    }

    pub fn render(&self, template: &str) -> (r: String)
        ensures
            r@ == render_spec(self.vars(), template@),
    {
        let ghost vs = var_views(self.vars@);
        let mut out = chars_of(template);
        let mut i: usize = 0;
        assert(vs.subrange(0, vs.len() as int) == vs);
        while i < self.vars.len()
            invariant
                vs == var_views(self.vars@),
                i <= self.vars.len(),
                render_spec(vs.subrange(i as int, vs.len() as int), out@) == render_spec(vs, template@),
            decreases self.vars.len() - i,
        {
            let ghost rest = vs.subrange(i as int, vs.len() as int);
            assert(rest.drop_first() == vs.subrange(i + 1, vs.len() as int));
            assert(rest[0] == (self.vars@[i as int].0@, self.vars@[i as int].1@));
            let mut pat: Vec<char> = Vec::new();
            pat.push('{');
            crate::text::append_chars(&mut pat, &chars_of(self.vars[i].0.as_str()));
            pat.push('}');
            assert(pat@ == placeholder(rest[0].0));
            out = replace_chars(&out, &pat, &chars_of(self.vars[i].1.as_str()));
            i += 1;
        }
        assert(vs.subrange(i as int, vs.len() as int).len() == 0);
        string_of(&out)
    }
}

} // verus!
