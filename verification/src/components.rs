//! The remaining typed pieces of a query: the output format, free-form
//! `key=value` modifiers, and weather parameters with an optional unit.
use vstd::prelude::*;
use crate::text::seq_join;

verus! {

/// The output format of a generic query.
#[derive(Clone, Copy, Debug, PartialEq, Eq, Structural)]
pub enum Format {
    CSV,
}

/// The rendering of a format.
pub open spec fn format_render(f: Format) -> Seq<char> {
    match f {
        Format::CSV => seq!['c', 's', 'v'],
    }
}

impl Format {
    /// Renders the format as it appears in a query.
    pub fn as_string(&self) -> (res: String)
        ensures
            res@ == format_render(*self),
    {
        proof {
            reveal_strlit("csv");
            assert("csv"@ =~= seq!['c', 's', 'v']);
        }
        match self {
            Format::CSV => String::from_str("csv"),
        }
    }
}

/// One free-form query modifier, a key and a value.
#[derive(Clone, Debug, PartialEq)]
pub struct Opt {
    pub k: String,
    pub v: String,
}

/// The rendering `key=value` of one modifier.
pub open spec fn opt_render(o: Opt) -> Seq<char> {
    o.k@ + seq!['='] + o.v@
}

impl Opt {
    /// Renders the modifier as `key=value`.
    pub fn as_string(&self) -> (res: String)
        ensures
            res@ == opt_render(*self),
    {
        proof {
            reveal_strlit("=");
        }
        let mut res = self.k.clone();
        res.append("=");
        res.append(self.v.as_str());
        assert(res@ =~= opt_render(*self));
        res
    }
}

/// An ordered list of free-form query modifiers.
#[derive(Clone, Debug, PartialEq)]
pub struct Optionals {
    pub opt_values: Vec<Opt>,
}

/// The renderings of a list of modifiers.
pub open spec fn opts_render(os: Seq<Opt>) -> Seq<Seq<char>> {
    os.map_values(|o: Opt| opt_render(o))
}

impl Optionals {
    /// Renders the list as its modifiers joined with `&`.
    pub fn as_string(&self) -> (res: String)
        ensures
            res@ == seq_join(opts_render(self.opt_values@), seq!['&']),
    {
        let mut rendered: Vec<String> = Vec::new();
        for i in 0..self.opt_values.len()
            invariant
                rendered.deep_view() == opts_render(self.opt_values@.take(i as int)),
        {
            let ghost old_dv = rendered.deep_view();
            rendered.push(self.opt_values[i].as_string());
            proof {
                assert(rendered.deep_view() =~= old_dv + seq![opt_render(
                    self.opt_values@[i as int],
                )]);
                assert(rendered.deep_view() =~= opts_render(self.opt_values@.take(i + 1)));
            }
        }
        assert(self.opt_values@.take(self.opt_values.len() as int) =~= self.opt_values@);
        let res = crate::text::join_strings(&rendered, "&");
        proof {
            reveal_strlit("&");
            assert("&"@ =~= seq!['&']);
        }
        res
    }
}

/// One weather parameter: a name, and an optional unit suffix.
#[derive(Clone, Debug, PartialEq)]
pub struct P {
    pub k: String,
    pub v: Option<String>,
}

/// The rendering of one parameter: the bare name, or `name:unit`.
pub open spec fn p_render(p: P) -> Seq<char> {
    match p.v {
        None => p.k@,
        Some(unit) => p.k@ + seq![':'] + unit@,
    }
}

impl P {
    /// Renders the parameter as its name, with `:unit` when a unit is set.
    pub fn as_string(&self) -> (res: String)
        ensures
            res@ == p_render(*self),
    {
        proof {
            reveal_strlit(":");
        }
        let mut res = self.k.clone();
        match &self.v {
            None => {},
            Some(unit) => {
                res.append(":");
                res.append(unit.as_str());
            },
        }
        assert(res@ =~= p_render(*self));
        res
    }
}

/// An ordered list of weather parameters; order is kept and duplicates are
/// not removed.
#[derive(Clone, Debug, PartialEq)]
pub struct Parameters {
    pub p_values: Vec<P>,
}

/// The renderings of a list of parameters.
pub open spec fn ps_render(ps: Seq<P>) -> Seq<Seq<char>> {
    ps.map_values(|p: P| p_render(p))
}

impl Parameters {
    /// Renders the list as its parameters joined with `,`.
    pub fn as_string(&self) -> (res: String)
        ensures
            res@ == seq_join(ps_render(self.p_values@), seq![',']),
    {
        let mut rendered: Vec<String> = Vec::new();
        for i in 0..self.p_values.len()
            invariant
                rendered.deep_view() == ps_render(self.p_values@.take(i as int)),
        {
            let ghost old_dv = rendered.deep_view();
            rendered.push(self.p_values[i].as_string());
            proof {
                assert(rendered.deep_view() =~= old_dv + seq![p_render(
                    self.p_values@[i as int],
                )]);
                assert(rendered.deep_view() =~= ps_render(self.p_values@.take(i + 1)));
            }
        }
        assert(self.p_values@.take(self.p_values.len() as int) =~= self.p_values@);
        let res = crate::text::join_strings(&rendered, ",");
        proof {
            reveal_strlit(",");
            assert(","@ =~= seq![',']);
        }
        res
    }
}

} // verus!
