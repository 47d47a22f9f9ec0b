//! Render-overlay messages: server-pushed groups of debug-draw primitives,
//! keyed by a group id, with the wire codec for the add-group / remove-group
//! message and the id-keyed store the consumer maintains.

use vstd::bytes::{spec_u32_from_le_bytes, spec_u32_to_le_bytes};
use vstd::prelude::*;

use crate::codec::{
    lemma_parse_enc_color, lemma_parse_enc_u32, lemma_parse_enc_vec3, lemma_parse_vec3_size,
    put_color, put_u32, put_vec3, read_color, read_u32, read_vec3, spec_enc_color, spec_enc_vec3,
    spec_parse_color, spec_parse_u32, spec_parse_vec3,
};
use crate::math::{Color, Vec3};

verus! {

/// One debug-draw primitive: a colored line segment in world space.
#[derive(Clone, Copy, PartialEq, Eq, Structural, Debug)]
pub struct RenderPrimitive {
    pub start: Vec3,
    pub end: Vec3,
    pub color: Color,
}

/// The largest primitive count an add-group message may carry.
pub const MAX_RENDER_PRIMITIVES: u32 = 1024;

/// The fixed-size prefix of an encoded render message: kind byte, group id,
/// and (for an add-group) the primitive count.
pub const RENDER_MIN_NUM_BYTES: usize = 9;

/// Bytes of one encoded primitive.
pub const RENDER_PRIMITIVE_NUM_BYTES: usize = 28;

/// A render-overlay message: install a group's primitive list, or drop a
/// group.
pub enum RenderMessage {
    AddRender(u32, Vec<RenderPrimitive>),
    RemoveRender(u32),
}

/// The mathematical value of a render message.
#[verifier::ext_equal]
pub ghost enum RenderMessageView {
    AddRender(u32, Seq<RenderPrimitive>),
    RemoveRender(u32),
}

impl View for RenderMessage {
    type V = RenderMessageView;

    open spec fn view(&self) -> RenderMessageView {
        match self {
            RenderMessage::AddRender(id, prims) => RenderMessageView::AddRender(*id, prims@),
            RenderMessage::RemoveRender(id) => RenderMessageView::RemoveRender(*id),
        }
    }
}

/// A message that fits on the wire: its primitive count is representable.
pub open spec fn wf_render_message(m: RenderMessageView) -> bool {
    match m {
        RenderMessageView::AddRender(_, prims) => prims.len() <= MAX_RENDER_PRIMITIVES,
        RenderMessageView::RemoveRender(_) => true,
    }
}

/// A primitive on the wire: both endpoints, then the color.
pub open spec fn spec_enc_prim(p: RenderPrimitive) -> Seq<u8> {
    spec_enc_vec3(p.start) + spec_enc_vec3(p.end) + spec_enc_color(p.color)
}

pub open spec fn spec_parse_prim(s: Seq<u8>) -> Option<(RenderPrimitive, Seq<u8>)> {
    match spec_parse_vec3(s) {
        None => None,
        Some((start, s)) => match spec_parse_vec3(s) {
            None => None,
            Some((end, s)) => match spec_parse_color(s) {
                None => None,
                Some((color, s)) => Some((RenderPrimitive { start, end, color }, s)),
            },
        },
    }
}

/// A primitive list on the wire: each primitive in order.
pub open spec fn spec_enc_prims(prims: Seq<RenderPrimitive>) -> Seq<u8>
    decreases prims.len(),
{
    if prims.len() == 0 {
        Seq::empty()
    } else {
        spec_enc_prim(prims[0]) + spec_enc_prims(prims.skip(1))
    }
}

/// Parses exactly `n` primitives.
pub open spec fn spec_parse_prims(n: nat, s: Seq<u8>) -> Option<(Seq<RenderPrimitive>, Seq<u8>)>
    decreases n,
{
    if n == 0 {
        Some((Seq::empty(), s))
    } else {
        match spec_parse_prim(s) {
            None => None,
            Some((p, s2)) => match spec_parse_prims((n - 1) as nat, s2) {
                None => None,
                Some((ps, s3)) => Some((seq![p] + ps, s3)),
            },
        }
    }
}

/// A render message on the wire: kind byte `0` for add-group (group id,
/// primitive count, primitives), kind byte `1` for remove-group (group id).
pub open spec fn spec_enc_render_message(m: RenderMessageView) -> Seq<u8> {
    match m {
        RenderMessageView::AddRender(id, prims) => seq![0u8] + spec_u32_to_le_bytes(id)
            + spec_u32_to_le_bytes(prims.len() as u32) + spec_enc_prims(prims),
        RenderMessageView::RemoveRender(id) => seq![1u8] + spec_u32_to_le_bytes(id),
    }
}

/// Parses a whole render message; the input must be consumed exactly.
pub open spec fn spec_parse_render_message(s: Seq<u8>) -> Option<RenderMessageView> {
    if s.len() < 1 {
        None
    } else if s[0] == 0 {
        match spec_parse_u32(s.skip(1)) {
            None => None,
            Some((id, s)) => match spec_parse_u32(s) {
                None => None,
                Some((n, s)) => if n <= MAX_RENDER_PRIMITIVES {
                    match spec_parse_prims(n as nat, s) {
                        None => None,
                        Some((prims, s)) => if s.len() == 0 {
                            Some(RenderMessageView::AddRender(id, prims))
                        } else {
                            None
                        },
                    }
                } else {
                    None
                },
            },
        }
    } else if s[0] == 1 {
        match spec_parse_u32(s.skip(1)) {
            None => None,
            Some((id, s)) => if s.len() == 0 {
                Some(RenderMessageView::RemoveRender(id))
            } else {
                None
            },
        }
    } else {
        None
    }
}

/// A parsed primitive consumes 28 bytes; fewer cannot parse.
pub proof fn lemma_parse_prim_size(s: Seq<u8>)
    ensures
        spec_parse_prim(s) is Some ==> s.len() >= 28 && (spec_parse_prim(s)->0).1 == s.skip(28),
        s.len() < 28 ==> spec_parse_prim(s) is None,
{
    broadcast use vstd::seq_lib::lemma_seq_skip_of_skip;

    lemma_parse_vec3_size(s);
    if spec_parse_vec3(s) is Some {
        lemma_parse_vec3_size(s.skip(12));
    }
}

/// Parsing an encoded primitive yields it back.
pub proof fn lemma_parse_enc_prim(p: RenderPrimitive, rest: Seq<u8>)
    ensures
        spec_parse_prim(spec_enc_prim(p) + rest) == Some((p, rest)),
{
    let r2 = spec_enc_color(p.color) + rest;
    let r1 = spec_enc_vec3(p.end) + r2;
    assert(spec_enc_prim(p) + rest =~= spec_enc_vec3(p.start) + r1);
    lemma_parse_enc_vec3(p.start, r1);
    lemma_parse_enc_vec3(p.end, r2);
    lemma_parse_enc_color(p.color, rest);
}

/// Parsing an encoded primitive list yields it back.
pub proof fn lemma_parse_enc_prims(prims: Seq<RenderPrimitive>, rest: Seq<u8>)
    ensures
        spec_parse_prims(prims.len(), spec_enc_prims(prims) + rest) == Some((prims, rest)),
    decreases prims.len(),
{
    if prims.len() == 0 {
        assert(spec_enc_prims(prims) + rest =~= rest);
        assert(Seq::<RenderPrimitive>::empty() =~= prims);
    } else {
        let tail_enc = spec_enc_prims(prims.skip(1)) + rest;
        assert(spec_enc_prims(prims) + rest =~= spec_enc_prim(prims[0]) + tail_enc);
        lemma_parse_enc_prim(prims[0], tail_enc);
        lemma_parse_enc_prims(prims.skip(1), rest);
        assert(seq![prims[0]] + prims.skip(1) =~= prims);
    }
}

/// Encoding a primitive list is encoding all but the last, then the last.
pub proof fn lemma_enc_prims_snoc(prims: Seq<RenderPrimitive>)
    requires
        prims.len() > 0,
    ensures
        spec_enc_prims(prims) == spec_enc_prims(prims.drop_last()) + spec_enc_prim(prims.last()),
    decreases prims.len(),
{
    if prims.len() == 1 {
        assert(prims.drop_last() =~= Seq::<RenderPrimitive>::empty());
        assert(prims.skip(1) =~= Seq::<RenderPrimitive>::empty());
        assert(spec_enc_prims(Seq::<RenderPrimitive>::empty()) == Seq::<u8>::empty());
        assert(spec_enc_prims(prims) =~= spec_enc_prims(prims.drop_last()) + spec_enc_prim(
            prims.last(),
        ));
    } else {
        let tail = prims.skip(1);
        let dl = prims.drop_last();
        lemma_enc_prims_snoc(tail);
        assert(tail.drop_last() =~= dl.skip(1));
        assert(dl.len() > 0);
        assert(dl[0] == prims[0]);
        assert(tail.last() == prims.last());
        assert(spec_enc_prims(prims) == spec_enc_prim(prims[0]) + spec_enc_prims(tail));
        assert(spec_enc_prims(dl) == spec_enc_prim(dl[0]) + spec_enc_prims(dl.skip(1)));
        assert(spec_enc_prims(prims) =~= spec_enc_prims(dl) + spec_enc_prim(prims.last()));
    }
}

impl RenderMessage {
    /// Encodes this message.
    #[verifier::loop_isolation(false)]
    pub fn to_bytes(&self) -> (r: Vec<u8>)
        requires
            wf_render_message(self@),
        ensures
            r@ == spec_enc_render_message(self@),
    {
        match self {
            RenderMessage::AddRender(id, prims) => {
                let mut out: Vec<u8> = Vec::new();
                out.push(0);
                put_u32(&mut out, *id);
                put_u32(&mut out, prims.len() as u32);
                let ghost head = out@;
                proof {
                    assert(prims@.take(0) =~= Seq::<RenderPrimitive>::empty());
                    assert(spec_enc_prims(Seq::<RenderPrimitive>::empty()) == Seq::<u8>::empty());
                    assert(out@ =~= head + spec_enc_prims(prims@.take(0)));
                }
                let mut i: usize = 0;
                while i < prims.len()
                    invariant
                        i <= prims@.len(),
                        out@ == head + spec_enc_prims(prims@.take(i as int)),
                    decreases prims@.len() - i,
                {
                    put_vec3(&mut out, prims[i].start);
                    put_vec3(&mut out, prims[i].end);
                    put_color(&mut out, prims[i].color);
                    i = i + 1;
                    proof {
                        let taken = prims@.take(i as int);
                        lemma_enc_prims_snoc(taken);
                        assert(taken.drop_last() =~= prims@.take(i - 1));
                        assert(taken.last() == prims@[i - 1]);
                        assert(out@ =~= head + spec_enc_prims(taken));
                    }
                }
                proof {
                    assert(prims@.take(prims@.len() as int) =~= prims@);
                    assert(out@ =~= spec_enc_render_message(self@));
                }
                out
            },
            RenderMessage::RemoveRender(id) => {
                let mut out: Vec<u8> = Vec::new();
                out.push(1);
                put_u32(&mut out, *id);
                proof {
                    assert(out@ =~= spec_enc_render_message(self@));
                }
                out
            },
        }
    }

    /// Decodes a render message; `None` exactly when the bytes are not a
    /// complete, well-formed encoding.
    #[verifier::loop_isolation(false)]
    #[verifier::spinoff_prover]
    #[verifier::rlimit(100)]
    pub fn from_bytes(s: &[u8]) -> (r: Option<RenderMessage>)
        ensures
            match r {
                Some(m) => spec_parse_render_message(s@) == Some(m@),
                None => spec_parse_render_message(s@) is None,
            },
    {
        let slen: usize = s.len();
        if slen < 1 {
            return None;
        }
        let kind = *vstd::slice::slice_index_get(s, 0);
        if kind == 0 {
            let mut pos: usize = 1;
            if slen - pos < 4 {
                return None;
            }
            let id = read_u32(s, &mut pos);
            if slen - pos < 4 {
                return None;
            }
            let n = read_u32(s, &mut pos);
            if n > MAX_RENDER_PRIMITIVES {
                return None;
            }
            let mut prims: Vec<RenderPrimitive> = Vec::new();
            let ghost pos0 = pos;
            let mut i: u32 = 0;
            proof {
                match spec_parse_prims(n as nat, s@.skip(pos0 as int)) {
                    Some((ps, rr)) => {
                        assert(Seq::<RenderPrimitive>::empty() + ps =~= ps);
                    },
                    None => {},
                }
            }
            while i < n
                invariant
                    i <= n,
                    prims@.len() == i as nat,
                    pos0 <= pos <= slen,
                    slen == s@.len(),
                    spec_parse_prims(n as nat, s@.skip(pos0 as int)) == (match spec_parse_prims(
                        (n - i) as nat,
                        s@.skip(pos as int),
                    ) {
                        None => None::<(Seq<RenderPrimitive>, Seq<u8>)>,
                        Some((ps, rr)) => Some((prims@ + ps, rr)),
                    }),
                decreases n - i,
            {
                if slen - pos < 28 {
                    proof {
                        lemma_parse_prim_size(s@.skip(pos as int));
                    }
                    return None;
                }
                let start = read_vec3(s, &mut pos);
                let end = read_vec3(s, &mut pos);
                let color = read_color(s, &mut pos);
                let p = RenderPrimitive { start, end, color };
                prims.push(p);
                i = i + 1;
                proof {
                    match spec_parse_prims((n - i) as nat, s@.skip(pos as int)) {
                        Some((ps, rr)) => {
                            assert(prims@ + ps =~= prims@.drop_last() + (seq![p] + ps));
                        },
                        None => {},
                    }
                }
            }
            proof {
                assert(prims@ + Seq::<RenderPrimitive>::empty() =~= prims@);
            }
            if pos != slen {
                return None;
            }
            let m = RenderMessage::AddRender(id, prims);
            proof {
                assert(spec_parse_render_message(s@) == Some(m@));
            }
            Some(m)
        } else if kind == 1 {
            let mut pos: usize = 1;
            if slen - pos < 4 {
                return None;
            }
            let id = read_u32(s, &mut pos);
            if pos != slen {
                return None;
            }
            Some(RenderMessage::RemoveRender(id))
        } else {
            None
        }
    }
}

/// Round trip: decoding an encoded render message yields it back.
#[verifier::spinoff_prover]
#[verifier::rlimit(100)]
pub proof fn lemma_render_message_round_trip(m: RenderMessageView)
    requires
        wf_render_message(m),
    ensures
        spec_parse_render_message(spec_enc_render_message(m)) == Some(m),
{
    let e = spec_enc_render_message(m);
    match m {
        RenderMessageView::AddRender(id, prims) => {
            let e_prims = spec_enc_prims(prims);
            let r2 = spec_u32_to_le_bytes(prims.len() as u32) + e_prims;
            let r1 = spec_u32_to_le_bytes(id) + r2;
            assert(e[0] == 0);
            assert(e.skip(1) =~= r1);
            lemma_parse_enc_u32(id, r2);
            lemma_parse_enc_u32(prims.len() as u32, e_prims);
            assert(e_prims =~= e_prims + Seq::<u8>::empty());
            lemma_parse_enc_prims(prims, Seq::<u8>::empty());
            assert((prims.len() as u32) as nat == prims.len());
            assert(spec_parse_render_message(e) == Some(m));
        },
        RenderMessageView::RemoveRender(id) => {
            assert(e[0] == 1);
            assert(e.skip(1) =~= spec_u32_to_le_bytes(id) + Seq::<u8>::empty());
            lemma_parse_enc_u32(id, Seq::<u8>::empty());
            assert(spec_parse_render_message(e) == Some(m));
        },
    }
}

/// The id-keyed store of installed render groups, modelled as a map from
/// group id to the group's primitive list.
pub struct RenderGroups {
    groups: Vec<(u32, Vec<RenderPrimitive>)>,
}

/// The map a group association list denotes; a later entry for the same id
/// overrides an earlier one, though the store never keeps two.
pub open spec fn spec_groups_map(
    s: Seq<(u32, Seq<RenderPrimitive>)>,
) -> Map<u32, Seq<RenderPrimitive>>
    decreases s.len(),
{
    if s.len() == 0 {
        Map::empty()
    } else {
        spec_groups_map(s.drop_last()).insert(s.last().0, s.last().1)
    }
}

/// The view of the stored association list: each entry with its list
/// abstracted.
pub open spec fn spec_entries_view(
    s: Seq<(u32, Vec<RenderPrimitive>)>,
) -> Seq<(u32, Seq<RenderPrimitive>)> {
    s.map_values(|e: (u32, Vec<RenderPrimitive>)| (e.0, e.1@))
}

impl View for RenderGroups {
    type V = Map<u32, Seq<RenderPrimitive>>;

    closed spec fn view(&self) -> Map<u32, Seq<RenderPrimitive>> {
        spec_groups_map(spec_entries_view(self.groups@))
    }
}

/// No two stored entries share a group id.
pub open spec fn spec_unique_keys(s: Seq<(u32, Seq<RenderPrimitive>)>) -> bool {
    forall|i: int, j: int| 0 <= i < j < s.len() ==> (#[trigger] s[i]).0 != (#[trigger] s[j]).0
}

/// A key is in the denoted map exactly when some entry carries it.
proof fn lemma_groups_map_dom(s: Seq<(u32, Seq<RenderPrimitive>)>, k: u32)
    ensures
        spec_groups_map(s).contains_key(k) <==> exists|i: int|
            0 <= i < s.len() && (#[trigger] s[i]).0 == k,
    decreases s.len(),
{
    if s.len() > 0 {
        lemma_groups_map_dom(s.drop_last(), k);
        if s.last().0 == k {
            assert((s[s.len() - 1]).0 == k);
        } else if spec_groups_map(s).contains_key(k) {
            let i = choose|i: int| 0 <= i < s.drop_last().len() && (#[trigger] s.drop_last()[i]).0 == k;
            assert((s[i]).0 == k);
        } else {
            if exists|i: int| 0 <= i < s.len() && (#[trigger] s[i]).0 == k {
                let i = choose|i: int| 0 <= i < s.len() && (#[trigger] s[i]).0 == k;
                assert(i < s.len() - 1);
                assert((s.drop_last()[i]).0 == k);
                assert(false);
            }
        }
    }
}

/// With unique keys, removing the entry at `i` removes exactly its key from
/// the denoted map.
proof fn lemma_groups_map_remove(s: Seq<(u32, Seq<RenderPrimitive>)>, i: int)
    requires
        spec_unique_keys(s),
        0 <= i < s.len(),
    ensures
        spec_groups_map(s.remove(i)) =~= spec_groups_map(s).remove(s[i].0),
    decreases s.len(),
{
    let k = s[i].0;
    if i == s.len() - 1 {
        assert(s.remove(i) =~= s.drop_last());
        lemma_groups_map_dom(s.drop_last(), k);
        if spec_groups_map(s.drop_last()).contains_key(k) {
            let j = choose|j: int|
                0 <= j < s.drop_last().len() && (#[trigger] s.drop_last()[j]).0 == k;
            assert((s[j]).0 == k);
            assert(false);
        }
        assert(spec_groups_map(s.drop_last()).remove(k) =~= spec_groups_map(s.drop_last()));
    } else {
        let dl = s.drop_last();
        lemma_groups_map_remove(dl, i);
        assert(s.remove(i).drop_last() =~= dl.remove(i));
        assert(s.remove(i).last() == s.last());
        assert(s.remove(i).len() > 0);
        assert(s.last().0 != k);
        assert(spec_groups_map(s.remove(i)) =~= spec_groups_map(dl.remove(i)).insert(
            s.last().0,
            s.last().1,
        ));
    }
}

/// With unique keys, the entry carrying a key gives that key's value in the
/// denoted map.
proof fn lemma_groups_map_index(s: Seq<(u32, Seq<RenderPrimitive>)>, i: int)
    requires
        spec_unique_keys(s),
        0 <= i < s.len(),
    ensures
        spec_groups_map(s).contains_key(s[i].0),
        spec_groups_map(s)[s[i].0] == s[i].1,
    decreases s.len(),
{
    if i == s.len() - 1 {
    } else {
        lemma_groups_map_index(s.drop_last(), i);
        assert(s.drop_last()[i] == s[i]);
        assert(s.last().0 != s[i].0);
    }
}

impl RenderGroups {
    /// The stored entries never repeat a group id.
    pub closed spec fn wf(&self) -> bool {
        spec_unique_keys(spec_entries_view(self.groups@))
    }

    /// An empty store.
    pub fn new_empty() -> (r: RenderGroups)
        ensures
            r.wf(),
            r@ == Map::<u32, Seq<RenderPrimitive>>::empty(),
    {
        let r = RenderGroups { groups: Vec::new() };
        proof {
            assert(spec_entries_view(r.groups@) =~= Seq::<(u32, Seq<RenderPrimitive>)>::empty());
        }
        r
    }

    /// The index of the entry carrying `id`, if any.
    fn find_index(&self, id: u32) -> (r: Option<usize>)
        ensures
            match r {
                Some(i) => {
                    &&& i < self.groups@.len()
                    &&& spec_entries_view(self.groups@)[i as int].0 == id
                },
                None => forall|i: int|
                    0 <= i < self.groups@.len() ==> (#[trigger] spec_entries_view(self.groups@)[i]).0
                        != id,
            },
    {
        let mut i: usize = 0;
        while i < self.groups.len()
            invariant
                i <= self.groups@.len(),
                forall|j: int|
                    0 <= j < i ==> (#[trigger] spec_entries_view(self.groups@)[j]).0 != id,
            decreases self.groups@.len() - i,
        {
            if self.groups[i].0 == id {
                return Some(i);
            }
            i = i + 1;
        }
        None
    }

    /// Drops the group with this id, if present.
    pub fn remove(&mut self, id: u32)
        requires
            old(self).wf(),
        ensures
            final(self).wf(),
            final(self)@ == old(self)@.remove(id),
    {
        match self.find_index(id) {
            Some(i) => {
                let ghost entries = spec_entries_view(self.groups@);
                proof {
                    lemma_groups_map_remove(entries, i as int);
                }
                self.groups.remove(i);
                proof {
                    assert(spec_entries_view(self.groups@) =~= entries.remove(i as int));
                    assert(self@ =~= old(self)@.remove(id));
                }
            },
            None => {
                proof {
                    let entries = spec_entries_view(self.groups@);
                    lemma_groups_map_dom(entries, id);
                    if spec_groups_map(entries).contains_key(id) {
                        let i = choose|i: int| 0 <= i < entries.len() && (#[trigger] entries[i]).0 == id;
                        assert(false);
                    }
                    assert(old(self)@.remove(id) =~= old(self)@);
                }
            },
        }
    }

    /// Installs (or replaces) the group with this id.
    pub fn insert(&mut self, id: u32, prims: Vec<RenderPrimitive>)
        requires
            old(self).wf(),
        ensures
            final(self).wf(),
            final(self)@ == old(self)@.insert(id, prims@),
    {
        self.remove(id);
        let ghost entries = spec_entries_view(self.groups@);
        let ghost pre = self@;
        self.groups.push((id, prims));
        proof {
            assert(spec_entries_view(self.groups@) =~= entries.push((id, prims@)));
            assert(spec_entries_view(self.groups@).drop_last() =~= entries);
            assert(self@ =~= pre.insert(id, prims@));
            assert(pre.insert(id, prims@) =~= old(self)@.remove(id).insert(id, prims@));
            assert(old(self)@.remove(id).insert(id, prims@) =~= old(self)@.insert(id, prims@));
            let post = spec_entries_view(self.groups@);
            assert forall|i: int, j: int| 0 <= i < j < post.len() implies (#[trigger] post[i]).0 != (
            #[trigger] post[j]).0 by {
                if j == post.len() - 1 {
                    lemma_groups_map_dom(entries, id);
                    if (post[i]).0 == id {
                        assert((entries[i]).0 == id);
                        assert(spec_groups_map(entries).contains_key(id));
                        assert(false);
                    }
                }
            }
        }
    }

    /// The primitives of the group with this id, if installed.
    pub fn get(&self, id: u32) -> (r: Option<&Vec<RenderPrimitive>>)
        requires
            self.wf(),
        ensures
            match r {
                Some(v) => self@.contains_key(id) && self@[id] == v@,
                None => !self@.contains_key(id),
            },
    {
        match self.find_index(id) {
            Some(i) => {
                proof {
                    lemma_groups_map_index(spec_entries_view(self.groups@), i as int);
                }
                Some(&self.groups[i].1)
            },
            None => {
                proof {
                    lemma_groups_map_dom(spec_entries_view(self.groups@), id);
                    if self@.contains_key(id) {
                        let i = choose|i: int|
                            0 <= i < spec_entries_view(self.groups@).len() && (
                            #[trigger] spec_entries_view(self.groups@)[i]).0 == id;
                        assert(false);
                    }
                }
                None
            },
        }
    }
}

/// Whether a peeked render-message header is well formed: a known kind byte,
/// and for an add-group a primitive count within the supported maximum.
pub fn render_header_ok(s: &[u8]) -> (r: bool)
    requires
        s@.len() >= 9,
    ensures
        r == (s@[0] == 0 && spec_u32_from_le_bytes(s@.subrange(5, 9)) <= MAX_RENDER_PRIMITIVES
            || s@[0] == 1),
{
    let kind = *vstd::slice::slice_index_get(s, 0);
    if kind == 0 {
        let mut pos: usize = 5;
        let n = read_u32(s, &mut pos);
        proof {
            assert(s@.skip(5).take(4) =~= s@.subrange(5, 9));
        }
        n <= MAX_RENDER_PRIMITIVES
    } else {
        kind == 1
    }
}

/// The exact payload length of the render message whose header was peeked:
/// the transport reads exactly this many bytes before decoding. A remove-
/// group message is 5 bytes; an add-group message is its header plus its
/// primitives.
pub fn render_get_num_bytes(s: &[u8]) -> (r: usize)
    requires
        s@.len() >= 9,
        s@[0] == 0 ==> spec_u32_from_le_bytes(s@.subrange(5, 9)) <= MAX_RENDER_PRIMITIVES,
        s@[0] == 0 || s@[0] == 1,
    ensures
        s@[0] == 0 ==> r == RENDER_MIN_NUM_BYTES + spec_u32_from_le_bytes(s@.subrange(5, 9))
            * RENDER_PRIMITIVE_NUM_BYTES,
        s@[0] == 1 ==> r == 5,
{
    let kind = *vstd::slice::slice_index_get(s, 0);
    if kind == 0 {
        let mut pos: usize = 5;
        let n = read_u32(s, &mut pos);
        proof {
            assert(s@.skip(5).take(4) =~= s@.subrange(5, 9));
        }
        RENDER_MIN_NUM_BYTES + (n as usize) * RENDER_PRIMITIVE_NUM_BYTES
    } else {
        5
    }
}

} // verus!
