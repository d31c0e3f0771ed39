use vstd::prelude::*;

use crate::ast::nodes::Node;
use crate::common::error::EngineResult;
use crate::lexer::token::Token;
use crate::lexer::token_stream::{current_token, ITokenStream};

use super::grammar::{reads_nodes, skip_newlines};
use super::toplevel::parse_top_level;


use super::extent::{settles, nodes_list, Extent};

verus! {

/// A pass over the parsed nodes, supplied by the user of the parser: a validation
/// that may refuse the program, or a transformation that may change it.
pub trait ParserPlugin {
    /// What a run of the plugin may do: from the nodes `before` it may leave the nodes
    /// `after` and return `r`. A plugin states this of itself; one that states nothing
    /// may do anything.
    open spec fn effect(&self, before: Seq<Node>, after: Seq<Node>, r: EngineResult<()>) -> bool {
        true
    }

    /// Runs the plugin on the nodes, which it may change.
    fn run(&mut self, nodes: &mut Vec<Node>) -> (r: EngineResult<()>)
        ensures
            old(self).effect(old(nodes)@, final(nodes)@, r),
    ;
}

/// Whether the plugins `ps`, run in order, each on the nodes the one before left, can all
/// succeed and take the nodes `from` to the nodes `to`.
pub open spec fn chain_ok(ps: Seq<PluginEntry>, from: Seq<Node>, to: Seq<Node>) -> bool
    decreases ps.len(),
{
    if ps.len() == 0 {
        to == from
    } else {
        exists|mid: Seq<Node>|
            #![trigger ps.last().plugin.effect(mid, to, Ok(()))]
            chain_ok(ps.drop_last(), from, mid) && ps.last().plugin.effect(mid, to, Ok(()))
    }
}

/// Whether running the plugins `ps` in order on the nodes `from` can give `r`: on success
/// every plugin succeeded and `r` holds the nodes the last one left; on an error, the
/// plugins before some plugin `k` succeeded and plugin `k` failed with that error, which is
/// returned as it is.
pub open spec fn plugins_give(ps: Seq<PluginEntry>, from: Seq<Node>, r: EngineResult<Vec<Node>>) -> bool {
    match r {
        Ok(nodes) => chain_ok(ps, from, nodes@),
        Err(e) => exists|k: int, mid: Seq<Node>, after: Seq<Node>|
            #![trigger chain_ok(ps.take(k), from, mid), ps[k].plugin.effect(mid, after, Err(e))]
            0 <= k < ps.len() && chain_ok(ps.take(k), from, mid) && ps[k].plugin.effect(mid, after, Err(e)),
    }
}

/// When a plugin runs: validations run first, then transformations.
#[derive(Clone, Copy, Debug, PartialEq, Eq, Structural)]
pub enum PluginType {
    Validate,
    Transform,
}

/// A plugin as the parser holds it.
pub struct PluginEntry {
    pub plugin: Box<dyn ParserPlugin>,
}

/// The parser: the top-level grammar followed by the plugins.
pub struct Parser {
    validate_plugins: Vec<PluginEntry>,
    transform_plugins: Vec<PluginEntry>,
}

impl Parser {
    /// A parser with no plugins.
    pub fn new() -> (r: Parser)
        ensures
            r.validations().len() == 0,
            r.transforms().len() == 0,
    {
        Parser { validate_plugins: Vec::new(), transform_plugins: Vec::new() }
    }

    /// The validation plugins, in the order they run.
    pub closed spec fn validations(&self) -> Seq<PluginEntry> {
        self.validate_plugins@
    }

    /// The transformation plugins, in the order they run.
    pub closed spec fn transforms(&self) -> Seq<PluginEntry> {
        self.transform_plugins@
    }

    /// All the plugins in the order they run: the validations, then the transformations.
    pub open spec fn plugins(&self) -> Seq<PluginEntry> {
        self.validations() + self.transforms()
    }

    /// Adds a plugin of the given type, to run after those of its type already added.
    pub fn add_plugin(&mut self, ty: PluginType, plugin: Box<dyn ParserPlugin>)
        ensures
            ty == PluginType::Validate ==> final(self).validations() == old(self).validations().push(
                PluginEntry { plugin },
            ) && final(self).transforms() == old(self).transforms(),
            ty == PluginType::Transform ==> final(self).transforms() == old(self).transforms().push(
                PluginEntry { plugin },
            ) && final(self).validations() == old(self).validations(),
    {
        match ty {
            PluginType::Validate => {
                self.validate_plugins.push(PluginEntry { plugin });
            },
            PluginType::Transform => {
                self.transform_plugins.push(PluginEntry { plugin });
            },
        }
    }

    /// Parses the tokens of `s`, then runs the validations and the transformations in order.
    /// Either the grammar fails, and its error is returned with no plugin run, or the grammar
    /// reads the nodes up to the end of input and the plugins run on them: each once, in
    /// order, each on the nodes the one before left; the first plugin error is returned as
    /// it is, and otherwise the result is the nodes the last plugin left. On a stream that
    /// cannot fail, which of the two happens is fixed by the tokens.
    pub fn parse<S: ITokenStream>(&mut self, s: &mut S) -> (r: EngineResult<Vec<Node>>)
        ensures
            r is Ok ==> current_token(final(s).remaining()).kind is EOF,
            parsed_then_plugins(old(self).plugins(), old(s).remaining(), final(s).remaining(), r)
                || (r is Err && final(self).plugins() == old(self).plugins()),
            old(s).reliable() && nodes_list(skip_newlines(old(s).remaining())) is Ok
                ==> parsed_then_plugins(old(self).plugins(), old(s).remaining(), final(s).remaining(), r),
            old(s).reliable() && nodes_list(skip_newlines(old(s).remaining())) is Err ==> settles(
                nodes_list(skip_newlines(old(s).remaining())),
                r,
                final(s).remaining(),
            ) && final(self).plugins() == old(self).plugins(),
            old(self).plugins().len() == 0 ==> (r matches Ok(nodes) ==> reads_nodes(
                skip_newlines(old(s).remaining()),
                final(s).remaining(),
                nodes@,
            )),
            old(self).plugins().len() == 0 && old(s).reliable() ==> settles(
                nodes_list(skip_newlines(old(s).remaining())),
                r,
                final(s).remaining(),
            ),
    {
        let mut nodes = parse_top_level(s)?;
        let ghost read = nodes@;
        let ghost vs = self.validate_plugins@;
        let ghost ts = self.transform_plugins@;
        let ghost ps = vs + ts;
        proof {
            assert(ps.take(0) =~= Seq::<PluginEntry>::empty());
        }

        let mut i: usize = 0;
        while i < self.validate_plugins.len()
            invariant
                i <= vs.len(),
                ps == vs + ts,
                vs == old(self).validations(),
                ts == old(self).transforms(),
                self.validate_plugins@.len() == vs.len(),
                forall|k: int| i <= k < vs.len() ==> self.validate_plugins@[k] == vs[k],
                self.transform_plugins@ == ts,
                chain_ok(ps.take(i as int), read, nodes@),
                current_token(s.remaining()).kind is EOF,
                old(s).reliable() ==> nodes_list(skip_newlines(old(s).remaining())) == Extent::Ok(s.remaining()),
                reads_nodes(skip_newlines(old(s).remaining()), s.remaining(), read),
            decreases self.validate_plugins@.len() - i,
        {
            let ghost before = nodes@;
            let res = self.validate_plugins[i].plugin.run(&mut nodes);
            proof {
                assert(ps[i as int] == vs[i as int]);
                lemma_chain_step(ps, i as int, read, before, nodes@, res);
            }
            if let Err(e) = res {
                proof {
                    assert(plugins_give(ps, read, Err(e)));
                    assert(parsed_then_plugins(ps, old(s).remaining(), s.remaining(), Err(e)));
                }
                return Err(e);
            }
            i = i + 1;
        }

        let mut j: usize = 0;
        while j < self.transform_plugins.len()
            invariant
                j <= ts.len(),
                ps == vs + ts,
                vs == old(self).validations(),
                ts == old(self).transforms(),
                self.transform_plugins@.len() == ts.len(),
                forall|k: int| j <= k < ts.len() ==> self.transform_plugins@[k] == ts[k],
                chain_ok(ps.take(vs.len() + j as int), read, nodes@),
                current_token(s.remaining()).kind is EOF,
                old(s).reliable() ==> nodes_list(skip_newlines(old(s).remaining())) == Extent::Ok(s.remaining()),
                reads_nodes(skip_newlines(old(s).remaining()), s.remaining(), read),
            decreases self.transform_plugins@.len() - j,
        {
            let ghost before = nodes@;
            let res = self.transform_plugins[j].plugin.run(&mut nodes);
            proof {
                assert(ps[vs.len() + j] == ts[j as int]);
                lemma_chain_step(ps, vs.len() + j, read, before, nodes@, res);
            }
            if let Err(e) = res {
                proof {
                    assert(plugins_give(ps, read, Err(e)));
                    assert(parsed_then_plugins(ps, old(s).remaining(), s.remaining(), Err(e)));
                }
                return Err(e);
            }
            j = j + 1;
        }
        proof {
            assert(ps.take((vs.len() + ts.len()) as int) =~= ps);
        }
        Ok(nodes)
    }
}

/// Whether the grammar reads the nodes of the tokens `t` up to the end of input, leaving
/// `rest`, and the plugins `ps` run on those nodes give `r`.
pub open spec fn parsed_then_plugins(
    ps: Seq<PluginEntry>,
    t: Seq<Token>,
    rest: Seq<Token>,
    r: EngineResult<Vec<Node>>,
) -> bool {
    &&& current_token(rest).kind is EOF
    &&& exists|read: Seq<Node>|
        #[trigger] reads_nodes(skip_newlines(t), rest, read) && plugins_give(ps, read, r)
}

/// One more plugin run: a success extends the chain, an error ends it with that error.
pub proof fn lemma_chain_step(
    ps: Seq<PluginEntry>,
    k: int,
    from: Seq<Node>,
    before: Seq<Node>,
    after: Seq<Node>,
    r: EngineResult<()>,
)
    requires
        0 <= k < ps.len(),
        chain_ok(ps.take(k), from, before),
        ps[k].plugin.effect(before, after, r),
    ensures
        r is Ok ==> chain_ok(ps.take(k + 1), from, after),
        r matches Err(e) ==> plugins_give(ps, from, Err(e)),
{
    let next = ps.take(k + 1);
    assert(next.drop_last() =~= ps.take(k));
    assert(next.last() == ps[k]);
    if let Ok(u) = r {
        assert(u == ());
        assert(next.last().plugin.effect(before, after, Ok(())));
    }
}

} // verus!
