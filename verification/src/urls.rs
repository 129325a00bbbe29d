//! The named URL registry: route names and external resources map to URL
//! templates with parameter placeholders, and `generate_url` substitutes
//! concrete values - the same mechanism for internal and external
//! targets. Entries are add-only at startup and read-only afterwards.

use vstd::prelude::*;
use crate::text;

verus! {

/// One piece of a URL template: literal text, or a named placeholder.
pub enum UrlPiece {
    Lit(Vec<u8>),
    Param(Vec<u8>),
}

/// A URL template: pieces concatenated in order.
pub struct UrlTemplate {
    pub pieces: Vec<UrlPiece>,
}

/// The ghost image of one piece.
pub enum PieceModel {
    Lit(Seq<u8>),
    Param(Seq<u8>),
}

pub open spec fn piece_model(p: UrlPiece) -> PieceModel {
    match p {
        UrlPiece::Lit(l) => PieceModel::Lit(l@),
        UrlPiece::Param(n) => PieceModel::Param(n@),
    }
}

pub open spec fn piece_models(ps: Seq<UrlPiece>) -> Seq<PieceModel> {
    ps.map_values(|p: UrlPiece| piece_model(p))
}

/// How many placeholders a template has.
pub open spec fn placeholder_count(ps: Seq<PieceModel>) -> int
    decreases ps.len(),
{
    if ps.len() == 0 {
        0
    } else {
        placeholder_count(ps.drop_last()) + if ps.last() is Param {
            1int
        } else {
            0int
        }
    }
}

/// The URL a template renders to: literals verbatim, the `k`th
/// placeholder replaced by the `k`th argument.
pub open spec fn render_pieces(ps: Seq<PieceModel>, args: Seq<Seq<u8>>) -> Seq<u8>
    decreases ps.len(),
{
    if ps.len() == 0 {
        Seq::<u8>::empty()
    } else {
        match ps.last() {
            PieceModel::Lit(l) => render_pieces(ps.drop_last(), args) + l,
            PieceModel::Param(_) => render_pieces(ps.drop_last(), args.drop_last()) + args.last(),
        }
    }
}

/// A placeholder count over a prefix never exceeds the whole.
pub proof fn lemma_placeholder_prefix(ps: Seq<PieceModel>, i: int)
    requires
        0 <= i <= ps.len(),
    ensures
        placeholder_count(ps.take(i)) <= placeholder_count(ps),
        placeholder_count(ps.take(i)) >= 0,
    decreases ps.len(),
{
    if ps.len() == 0 {
        assert(ps.take(i) =~= ps);
    } else if i == ps.len() {
        assert(ps.take(i) =~= ps);
        lemma_placeholder_prefix(ps.drop_last(), i - 1);
    } else {
        assert(ps.take(i) =~= ps.drop_last().take(i));
        lemma_placeholder_prefix(ps.drop_last(), i);
    }
}

/// The first template registered under a name, if any.
pub open spec fn lookup_template(es: Seq<(Vec<u8>, UrlTemplate)>, name: Seq<u8>) -> Option<
    Seq<PieceModel>,
>
    decreases es.len(),
{
    if es.len() == 0 {
        None
    } else if es[0].0@ == name {
        Some(piece_models(es[0].1.pieces@))
    } else {
        lookup_template(es.drop_first(), name)
    }
}

/// The URL pieces a route's segments spell: each segment follows a
/// slash, literals verbatim, parameters as placeholders.
pub open spec fn route_pieces(segs: Seq<crate::pattern::Segment>) -> Seq<PieceModel>
    decreases segs.len(),
{
    if segs.len() == 0 {
        Seq::<PieceModel>::empty()
    } else {
        let rest = route_pieces(segs.drop_last());
        match segs.last() {
            crate::pattern::Segment::Literal(l) => rest.push(PieceModel::Lit(seq![47u8] + l@)),
            crate::pattern::Segment::Param(n) => rest + seq![
                PieceModel::Lit(seq![47u8]),
                PieceModel::Param(n@),
            ],
        }
    }
}

/// Spells a route's segments as a URL template, so that a named route
/// can regenerate its own concrete URLs.
pub fn route_url_template(segs: &Vec<crate::pattern::Segment>) -> (r: UrlTemplate)
    ensures
        piece_models(r.pieces@) == route_pieces(segs@),
{
    let mut pieces: Vec<UrlPiece> = Vec::new();
    proof {
        assert(piece_models(pieces@) =~= route_pieces(segs@.take(0)));
    }
    let mut i: usize = 0;
    while i < segs.len()
        invariant
            0 <= i <= segs@.len(),
            piece_models(pieces@) == route_pieces(segs@.take(i as int)),
        decreases segs@.len() - i,
    {
        proof {
            assert(segs@.take(i + 1).drop_last() =~= segs@.take(i as int));
            assert(segs@.take(i + 1).last() == segs@[i as int]);
        }
        match &segs[i] {
            crate::pattern::Segment::Literal(l) => {
                let mut piece: Vec<u8> = Vec::new();
                piece.push(47);
                text::append_bytes(&mut piece, l.as_slice());
                proof {
                    assert(piece@ =~= seq![47u8] + l@);
                }
                pieces.push(UrlPiece::Lit(piece));
            },
            crate::pattern::Segment::Param(n) => {
                let mut slash: Vec<u8> = Vec::new();
                slash.push(47);
                pieces.push(UrlPiece::Lit(slash));
                let name = vstd::slice::slice_to_vec(n.as_slice());
                pieces.push(UrlPiece::Param(name));
            },
        }
        proof {
            assert(piece_models(pieces@) =~= route_pieces(segs@.take(i + 1)));
        }
        i = i + 1;
    }
    proof {
        assert(segs@.take(i as int) =~= segs@);
    }
    UrlTemplate { pieces }
}

/// Route names and external resources, each bound to a URL template.
pub struct NamedUrlRegistry {
    pub entries: Vec<(Vec<u8>, UrlTemplate)>,
}

impl NamedUrlRegistry {
    pub fn new() -> (r: NamedUrlRegistry)
        ensures
            r.entries@.len() == 0,
    {
        NamedUrlRegistry { entries: Vec::new() }
    }

    /// Binds a name to a template; add-only, startup-time.
    pub fn register(&mut self, name: Vec<u8>, template: UrlTemplate)
        ensures
            final(self).entries@ == old(self).entries@.push((name, template)),
    {
        self.entries.push((name, template));
    }

    /// Registers a named route's own URL template, derived from its
    /// segments; a nameless route leaves the registry unchanged.
    pub fn register_route(&mut self, t: &crate::pattern::RouteTemplate)
        ensures
            match t.name {
                Some(n) => {
                    &&& final(self).entries@.len() == old(self).entries@.len() + 1
                    &&& final(self).entries@.drop_last() == old(self).entries@
                    &&& final(self).entries@.last().0@ == n@
                    &&& piece_models(final(self).entries@.last().1.pieces@) == route_pieces(
                        t.segments@,
                    )
                },
                None => final(self).entries@ == old(self).entries@,
            },
    {
        match &t.name {
            Some(n) => {
                let name = vstd::slice::slice_to_vec(n.as_slice());
                let template = route_url_template(&t.segments);
                self.entries.push((name, template));
                proof {
                    assert(self.entries@.drop_last() =~= old(self).entries@);
                }
            },
            None => {},
        }
    }

    /// Regenerates a concrete URL for a registered name: every
    /// placeholder takes the next argument in order. Nothing comes back
    /// for an unknown name or a wrong argument count.
    pub fn generate_url(&self, name: &[u8], args: &Vec<Vec<u8>>) -> (r: Option<Vec<u8>>)
        ensures
            match lookup_template(self.entries@, name@) {
                None => r is None,
                Some(ps) => {
                    if placeholder_count(ps) == args@.len() {
                        &&& r is Some
                        &&& r->0@ == render_pieces(ps, text::views_of(args@))
                    } else {
                        r is None
                    }
                },
            },
    {
        let mut i: usize = 0;
        proof {
            assert(self.entries@.skip(0) =~= self.entries@);
        }
        while i < self.entries.len()
            invariant
                0 <= i <= self.entries@.len(),
                lookup_template(self.entries@, name@) == lookup_template(
                    self.entries@.skip(i as int),
                    name@,
                ),
            decreases self.entries@.len() - i,
        {
            proof {
                assert(self.entries@.skip(i as int)[0] == self.entries@[i as int]);
                assert(self.entries@.skip(i as int).drop_first() =~= self.entries@.skip(i + 1));
            }
            if text::bytes_eq(self.entries[i].0.as_slice(), name) {
                return render_template(&self.entries[i].1, args);
            }
            i = i + 1;
        }
        None
    }
}

/// Renders one template against the argument list; nothing comes back
/// when the placeholder count and the argument count disagree.
fn render_template(t: &UrlTemplate, args: &Vec<Vec<u8>>) -> (r: Option<Vec<u8>>)
    ensures
        ({
            let ps = piece_models(t.pieces@);
            if placeholder_count(ps) == args@.len() {
                r is Some && r->0@ == render_pieces(ps, text::views_of(args@))
            } else {
                r is None
            }
        }),
{
    let ghost ps = piece_models(t.pieces@);
    let n = count_placeholders(&t.pieces);
    if n != args.len() {
        return None;
    }
    let mut out: Vec<u8> = Vec::new();
    let mut used: usize = 0;
    let mut i: usize = 0;
    proof {
        assert(ps.take(0) =~= Seq::<PieceModel>::empty());
        assert(text::views_of(args@).take(0) =~= Seq::<Seq<u8>>::empty());
    }
    while i < t.pieces.len()
        invariant
            0 <= i <= t.pieces@.len(),
            ps == piece_models(t.pieces@),
            placeholder_count(ps) == args@.len(),
            used as int == placeholder_count(ps.take(i as int)),
            used <= args@.len(),
            out@ == render_pieces(ps.take(i as int), text::views_of(args@).take(used as int)),
        decreases t.pieces@.len() - i,
    {
        proof {
            assert(ps.take(i + 1).drop_last() =~= ps.take(i as int));
            assert(ps.take(i + 1).last() == ps[i as int]);
            assert(ps[i as int] == piece_model(t.pieces@[i as int]));
        }
        match &t.pieces[i] {
            UrlPiece::Lit(l) => {
                text::append_bytes(&mut out, l.as_slice());
                proof {
                    assert(out@ =~= render_pieces(
                        ps.take(i + 1),
                        text::views_of(args@).take(used as int),
                    ));
                }
            },
            UrlPiece::Param(_) => {
                proof {
                    lemma_placeholder_prefix(ps, i + 1);
                    assert(placeholder_count(ps.take(i + 1)) == used + 1);
                    assert(used + 1 <= args@.len());
                    assert(used < args.len());
                }
                text::append_bytes(&mut out, args[used].as_slice());
                proof {
                    assert(text::views_of(args@).take(used + 1).drop_last() =~= text::views_of(
                        args@,
                    ).take(used as int));
                    assert(text::views_of(args@).take(used + 1).last() == args@[used as int]@);
                    assert(out@ =~= render_pieces(
                        ps.take(i + 1),
                        text::views_of(args@).take(used + 1),
                    ));
                }
                used = used + 1;
            },
        }
        i = i + 1;
    }
    proof {
        assert(ps.take(i as int) =~= ps);
        assert(used as int == args@.len());
        assert(text::views_of(args@).take(used as int) =~= text::views_of(args@));
    }
    Some(out)
}

/// Counts the placeholders of a template.
fn count_placeholders(pieces: &Vec<UrlPiece>) -> (n: usize)
    ensures
        n as int == placeholder_count(piece_models(pieces@)),
{
    let mut n: usize = 0;
    let mut i: usize = 0;
    while i < pieces.len()
        invariant
            0 <= i <= pieces@.len(),
            n <= i,
            n as int == placeholder_count(piece_models(pieces@).take(i as int)),
        decreases pieces@.len() - i,
    {
        proof {
            assert(piece_models(pieces@).take(i + 1).drop_last() =~= piece_models(
                pieces@,
            ).take(i as int));
            assert(piece_models(pieces@).take(i + 1).last() == piece_model(pieces@[i as int]));
        }
        match &pieces[i] {
            UrlPiece::Param(_) => {
                n = n + 1;
            },
            UrlPiece::Lit(_) => {},
        }
        i = i + 1;
    }
    proof {
        assert(piece_models(pieces@).take(i as int) =~= piece_models(pieces@));
    }
    n
}

} // verus!
