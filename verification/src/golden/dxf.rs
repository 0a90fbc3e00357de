//! A golden drawing's file as it is written: a run of groups, and the
//! handles issued in the order things are written.
//!
//! The writer appends whole records -- an entity's common groups, a block's
//! BLOCK and ENDBLK records -- and issues each handle once: the handle a
//! record gets is the one after the last handle issued, so the same records
//! written in the same order always carry the same handles.

use crate::golden::block_names::{decimal_chars, decimal_text};
use crate::golden::spec::Codepage;
use crate::golden::writer::{encoded, group_code_field, group_pair, handle_hex, upper_hex};
use vstd::prelude::*;

verus! {

/// The bytes of one group: the code right-aligned in a field of three
/// characters and a line feed, then the value in the code page and a line
/// feed; `None` when the code page cannot hold the value.
pub open spec fn group_bytes(codepage: Codepage, code: u16, value: Seq<char>) -> Option<Seq<u8>> {
    match encoded(codepage, value) {
        Some(v) => Some(group_code_field(code) + seq![0x0Au8] + v + seq![0x0Au8]),
        None => None,
    }
}

/// The bytes of a run of groups, one after the other; `None` when the code
/// page cannot hold one of their values.
pub open spec fn groups_bytes(codepage: Codepage, groups: Seq<(u16, Seq<char>)>) -> Option<
    Seq<u8>,
>
    decreases groups.len(),
{
    if groups.len() == 0 {
        Some(seq![])
    } else {
        match (
            groups_bytes(codepage, groups.drop_last()),
            group_bytes(codepage, groups.last().0, groups.last().1),
        ) {
            (Some(a), Some(b)) => Some(a + b),
            _ => None,
        }
    }
}

/// The groups of an entity's common part (DXF 5, 330, 100 and 8): its
/// handle, the block record that owns it, the subclass marker, its layer.
pub open spec fn common_groups(handle: u32, layer: Seq<char>, owner: u32) -> Seq<(u16, Seq<char>)> {
    seq![
        (5u16, upper_hex(handle as nat)),
        (330u16, upper_hex(owner as nat)),
        (100u16, seq!['A', 'c', 'D', 'b', 'E', 'n', 't', 'i', 't', 'y']),
        (8u16, layer),
    ]
}

/// The groups of a BLOCK record: its handle, owner, layer `0`, the block's
/// name and flags, a base point at the origin, and the name again.
pub open spec fn block_begin_groups(name: Seq<char>, flags: u16, handle: u32, owner: u32) -> Seq<
    (u16, Seq<char>),
> {
    seq![(0u16, seq!['B', 'L', 'O', 'C', 'K'])] + common_groups(handle, seq!['0'], owner) + seq![
        (100u16, seq!['A', 'c', 'D', 'b', 'B', 'l', 'o', 'c', 'k', 'B', 'e', 'g', 'i', 'n']),
        (2u16, name),
        (70u16, decimal_chars(flags as nat)),
        (10u16, seq!['0', '.', '0']),
        (20u16, seq!['0', '.', '0']),
        (30u16, seq!['0', '.', '0']),
        (3u16, name),
        (1u16, seq![]),
    ]
}

/// The groups of an ENDBLK record: its handle, owner and layer `0`.
pub open spec fn block_end_groups(handle: u32, owner: u32) -> Seq<(u16, Seq<char>)> {
    seq![(0u16, seq!['E', 'N', 'D', 'B', 'L', 'K'])] + common_groups(handle, seq!['0'], owner)
        + seq![(100u16, seq!['A', 'c', 'D', 'b', 'B', 'l', 'o', 'c', 'k', 'E', 'n', 'd'])]
}

/// The extrusion groups (DXF 210, 220, 230) of a mirrored entity, whose
/// normal is the world's -Z; an entity with the default normal writes none.
pub open spec fn extrusion_groups(mirrored: bool) -> Seq<(u16, Seq<char>)> {
    if mirrored {
        seq![
            (210u16, seq!['0', '.', '0']),
            (220u16, seq!['0', '.', '0']),
            (230u16, seq!['-', '1', '.', '0']),
        ]
    } else {
        seq![]
    }
}

/// One group to write, as a code and its value.
pub open spec fn group_view(g: (u16, String)) -> (u16, Seq<char>) {
    (g.0, g.1@)
}

/// The bytes written so far, the code page they are written in, and the
/// next handle to issue.
pub struct DxfWriter {
    out: Vec<u8>,
    codepage: Codepage,
    next_handle: u32,
    issued: Ghost<Seq<u32>>,
}

impl DxfWriter {
    /// Every handle issued is below the next one.
    #[verifier::type_invariant]
    spec fn handles_below_next(self) -> bool {
        forall|i: int| 0 <= i < self.issued@.len() ==> self.issued@[i] < self.next_handle
    }

    /// The handles issued so far, in the order they were issued.
    pub closed spec fn issued(self) -> Seq<u32> {
        self.issued@
    }

    /// The bytes written so far.
    pub closed spec fn bytes(self) -> Seq<u8> {
        self.out@
    }

    /// The code page every value is stored in.
    pub closed spec fn codepage(self) -> Codepage {
        self.codepage
    }

    /// The handle the writer issues next.
    pub closed spec fn next_handle(self) -> u32 {
        self.next_handle
    }

    /// A writer that has written nothing, storing values in `codepage` and
    /// issuing handles from `first_handle` on.
    pub fn new(codepage: Codepage, first_handle: u32) -> (w: Self)
        ensures
            w.bytes() == Seq::<u8>::empty(),
            w.codepage() == codepage,
            w.next_handle() == first_handle,
            w.issued() == Seq::<u32>::empty(),
    {
        let issued: Ghost<Seq<u32>> = Ghost(Seq::empty());
        DxfWriter { out: Vec::new(), codepage, next_handle: first_handle, issued }
    }

    /// Issues a handle: the next one, after which the next is one higher --
    /// so no handle is issued twice.
    pub fn handle(&mut self) -> (h: u32)
        requires
            old(self).next_handle() < u32::MAX,
        ensures
            h == old(self).next_handle(),
            !old(self).issued().contains(h),
            final(self).issued() == old(self).issued().push(h),
            final(self).next_handle() == h + 1,
            final(self).bytes() == old(self).bytes(),
            final(self).codepage() == old(self).codepage(),
    {
        proof {
            use_type_invariant(&*self);
        }
        let h = self.next_handle;
        let ghost issued = self.issued@.push(h);
        self.next_handle = h + 1;
        self.issued = Ghost(issued);
        h
    }

    /// What `$HANDSEED` states: the next handle, in upper-case hexadecimal
    /// -- above every handle issued.
    pub fn handle_seed(&self) -> (seed: String)
        ensures
            seed@ == upper_hex(self.next_handle() as nat),
            forall|i: int| 0 <= i < self.issued().len() ==> self.issued()[i] < self.next_handle(),
    {
        proof {
            use_type_invariant(self);
        }
        handle_hex(self.next_handle)
    }

    /// Appends one group. `false`, and nothing written, when the code page
    /// cannot hold the value.
    pub fn pair(&mut self, code: u16, value: &str) -> (ok: bool)
        requires
            old(self).codepage() == Codepage::Ansi949 ==> value@.len() <= 0x0FFF_FFFF,
        ensures
            ok == group_bytes(old(self).codepage(), code, value@) is Some,
            ok ==> final(self).bytes() == old(self).bytes() + group_bytes(
                old(self).codepage(),
                code,
                value@,
            )->0,
            !ok ==> final(self).bytes() == old(self).bytes(),
            final(self).next_handle() == old(self).next_handle(),
            final(self).issued() == old(self).issued(),
            final(self).codepage() == old(self).codepage(),
    {
        proof {
            use_type_invariant(&*self);
        }
        match group_pair(self.codepage, code, value) {
            Some(mut b) => {
                let mut out: Vec<u8> = Vec::new();
                std::mem::swap(&mut out, &mut self.out);
                out.append(&mut b);
                self.out = out;
                true
            },
            None => false,
        }
    }

    /// Appends a run of groups, all or nothing: `false`, and nothing
    /// written, when the code page cannot hold one of their values.
    fn groups(&mut self, groups: Vec<(u16, String)>) -> (ok: bool)
        requires
            old(self).codepage() == Codepage::Ansi949 ==> forall|i: int|
                0 <= i < groups@.len() ==> (#[trigger] groups@[i]).1@.len() <= 0x0FFF_FFFF,
        ensures
            ok == groups_bytes(old(self).codepage(), groups@.map_values(|g| group_view(g))) is Some,
            ok ==> final(self).bytes() == old(self).bytes() + groups_bytes(
                old(self).codepage(),
                groups@.map_values(|g| group_view(g)),
            )->0,
            !ok ==> final(self).bytes() == old(self).bytes(),
            final(self).next_handle() == old(self).next_handle(),
            final(self).issued() == old(self).issued(),
            final(self).codepage() == old(self).codepage(),
    {
        let ghost all = groups@.map_values(|g| group_view(g));
        let mut written: Vec<u8> = Vec::new();
        let mut i: usize = 0;
        assert(all.take(0) =~= Seq::<(u16, Seq<char>)>::empty());
        while i < groups.len()
            invariant
                i <= groups@.len(),
                all == groups@.map_values(|g| group_view(g)),
                self.codepage == Codepage::Ansi949 ==> forall|k: int|
                    0 <= k < groups@.len() ==> (#[trigger] groups@[k]).1@.len() <= 0x0FFF_FFFF,
                groups_bytes(self.codepage, all.take(i as int)) == Some(written@),
            decreases groups@.len() - i,
        {
            let (code, value) = (groups[i].0, &groups[i].1);
            assert(all.take(i + 1).drop_last() =~= all.take(i as int));
            assert(all.take(i + 1).last() == (code, value@));
            match group_pair(self.codepage, code, value.as_str()) {
                Some(mut b) => {
                    written.append(&mut b);
                },
                None => {
                    proof {
                        lemma_failed_group_fails_the_run(self.codepage, all, i as int + 1);
                    }
                    return false;
                },
            }
            i += 1;
        }
        assert(all.take(i as int) =~= all);
        proof {
            use_type_invariant(&*self);
        }
        let mut out: Vec<u8> = Vec::new();
        std::mem::swap(&mut out, &mut self.out);
        out.append(&mut written);
        self.out = out;
        true
    }

    /// Appends an entity's common groups (DXF 5, 330, 100 and 8).
    pub fn common(&mut self, handle: u32, layer: &str, owner: u32) -> (ok: bool)
        requires
            old(self).codepage() == Codepage::Ansi949 ==> layer@.len() <= 0x0FFF_FFFF,
        ensures
            ok == groups_bytes(old(self).codepage(), common_groups(handle, layer@, owner)) is Some,
            ok ==> final(self).bytes() == old(self).bytes() + groups_bytes(
                old(self).codepage(),
                common_groups(handle, layer@, owner),
            )->0,
            !ok ==> final(self).bytes() == old(self).bytes(),
            final(self).next_handle() == old(self).next_handle(),
            final(self).issued() == old(self).issued(),
            final(self).codepage() == old(self).codepage(),
    {
        let mut gs: Vec<(u16, String)> = Vec::new();
        gs.push((5, handle_hex(handle)));
        gs.push((330, handle_hex(owner)));
        gs.push((100, "AcDbEntity".to_string()));
        gs.push((8, layer.to_string()));
        proof {
            reveal_strlit("AcDbEntity");
            lemma_upper_hex_is_short(handle as nat);
            lemma_upper_hex_is_short(owner as nat);
            assert("AcDbEntity"@ =~= seq!['A', 'c', 'D', 'b', 'E', 'n', 't', 'i', 't', 'y']);
        }
        assert(gs@.map_values(|g| group_view(g)) =~= common_groups(handle, layer@, owner));
        self.groups(gs)
    }

    /// Appends a BLOCK record for the block `name` with `flags` (DXF 70),
    /// owned by the block record `owner`, under the next handle.
    pub fn block_begin(&mut self, name: &str, flags: u16, owner: u32) -> (ok: bool)
        requires
            old(self).codepage() == Codepage::Ansi949 ==> name@.len() <= 0x0FFF_FFFF,
            old(self).next_handle() < u32::MAX,
        ensures
            final(self).next_handle() == old(self).next_handle() + 1,
            final(self).issued() == old(self).issued().push(old(self).next_handle()),
            !old(self).issued().contains(old(self).next_handle()),
            final(self).codepage() == old(self).codepage(),
            ok == groups_bytes(
                old(self).codepage(),
                block_begin_groups(name@, flags, old(self).next_handle(), owner),
            ) is Some,
            ok ==> final(self).bytes() == old(self).bytes() + groups_bytes(
                old(self).codepage(),
                block_begin_groups(name@, flags, old(self).next_handle(), owner),
            )->0,
            !ok ==> final(self).bytes() == old(self).bytes(),
    {
        let h = self.handle();
        let mut gs: Vec<(u16, String)> = Vec::new();
        gs.push((0, "BLOCK".to_string()));
        gs.push((5, handle_hex(h)));
        gs.push((330, handle_hex(owner)));
        gs.push((100, "AcDbEntity".to_string()));
        gs.push((8, "0".to_string()));
        gs.push((100, "AcDbBlockBegin".to_string()));
        gs.push((2, name.to_string()));
        gs.push((70, decimal_text(flags as usize)));
        gs.push((10, "0.0".to_string()));
        gs.push((20, "0.0".to_string()));
        gs.push((30, "0.0".to_string()));
        gs.push((3, name.to_string()));
        gs.push((1, "".to_string()));
        proof {
            reveal_strlit("BLOCK");
            reveal_strlit("AcDbEntity");
            reveal_strlit("0");
            reveal_strlit("AcDbBlockBegin");
            reveal_strlit("0.0");
            reveal_strlit("");
            lemma_upper_hex_is_short(h as nat);
            lemma_upper_hex_is_short(owner as nat);
            lemma_decimal_chars_is_short(flags as nat);
            assert("BLOCK"@ =~= seq!['B', 'L', 'O', 'C', 'K']);
            assert("AcDbEntity"@ =~= seq!['A', 'c', 'D', 'b', 'E', 'n', 't', 'i', 't', 'y']);
            assert("0"@ =~= seq!['0']);
            assert("AcDbBlockBegin"@ =~= seq!['A', 'c', 'D', 'b', 'B', 'l', 'o', 'c', 'k', 'B', 'e', 'g', 'i', 'n']);
            assert("0.0"@ =~= seq!['0', '.', '0']);
            assert(""@ =~= Seq::<char>::empty());
        }
        assert(gs@.map_values(|g| group_view(g)) =~= block_begin_groups(name@, flags, h, owner));
        self.groups(gs)
    }

    /// Appends an ENDBLK record owned by the block record `owner`, under
    /// the next handle.
    pub fn block_end(&mut self, owner: u32) -> (ok: bool)
        requires
            old(self).next_handle() < u32::MAX,
        ensures
            final(self).next_handle() == old(self).next_handle() + 1,
            final(self).issued() == old(self).issued().push(old(self).next_handle()),
            !old(self).issued().contains(old(self).next_handle()),
            final(self).codepage() == old(self).codepage(),
            ok == groups_bytes(
                old(self).codepage(),
                block_end_groups(old(self).next_handle(), owner),
            ) is Some,
            ok ==> final(self).bytes() == old(self).bytes() + groups_bytes(
                old(self).codepage(),
                block_end_groups(old(self).next_handle(), owner),
            )->0,
            !ok ==> final(self).bytes() == old(self).bytes(),
    {
        let h = self.handle();
        let mut gs: Vec<(u16, String)> = Vec::new();
        gs.push((0, "ENDBLK".to_string()));
        gs.push((5, handle_hex(h)));
        gs.push((330, handle_hex(owner)));
        gs.push((100, "AcDbEntity".to_string()));
        gs.push((8, "0".to_string()));
        gs.push((100, "AcDbBlockEnd".to_string()));
        proof {
            reveal_strlit("ENDBLK");
            reveal_strlit("AcDbEntity");
            reveal_strlit("0");
            reveal_strlit("AcDbBlockEnd");
            lemma_upper_hex_is_short(h as nat);
            lemma_upper_hex_is_short(owner as nat);
            assert("ENDBLK"@ =~= seq!['E', 'N', 'D', 'B', 'L', 'K']);
            assert("AcDbEntity"@ =~= seq!['A', 'c', 'D', 'b', 'E', 'n', 't', 'i', 't', 'y']);
            assert("0"@ =~= seq!['0']);
            assert("AcDbBlockEnd"@ =~= seq!['A', 'c', 'D', 'b', 'B', 'l', 'o', 'c', 'k', 'E', 'n', 'd']);
        }
        assert(gs@.map_values(|g| group_view(g)) =~= block_end_groups(h, owner));
        self.groups(gs)
    }

    /// Appends the extrusion groups of a mirrored entity (DXF 210 to 230,
    /// the world's -Z); an entity that is not mirrored writes none.
    pub fn extrusion(&mut self, mirrored: bool) -> (ok: bool)
        ensures
            ok == groups_bytes(old(self).codepage(), extrusion_groups(mirrored)) is Some,
            ok ==> final(self).bytes() == old(self).bytes() + groups_bytes(
                old(self).codepage(),
                extrusion_groups(mirrored),
            )->0,
            !ok ==> final(self).bytes() == old(self).bytes(),
            final(self).next_handle() == old(self).next_handle(),
            final(self).issued() == old(self).issued(),
            final(self).codepage() == old(self).codepage(),
    {
        let mut gs: Vec<(u16, String)> = Vec::new();
        if mirrored {
            gs.push((210, "0.0".to_string()));
            gs.push((220, "0.0".to_string()));
            gs.push((230, "-1.0".to_string()));
        }
        proof {
            reveal_strlit("0.0");
            reveal_strlit("-1.0");
            assert("0.0"@ =~= seq!['0', '.', '0']);
            assert("-1.0"@ =~= seq!['-', '1', '.', '0']);
            if mirrored {
                assert(gs@.map_values(|g| group_view(g))[2] == (230u16, seq!['-', '1', '.', '0']));
            }
        }
        assert(gs@.map_values(|g| group_view(g)) =~= extrusion_groups(mirrored));
        self.groups(gs)
    }

    /// The bytes written.
    pub fn into_bytes(self) -> (b: Vec<u8>)
        ensures
            b@ == self.bytes(),
    {
        self.out
    }
}

/// A run of groups one of which the code page cannot hold cannot be
/// written: if the `k`-th group fails, so does every run that holds it.
proof fn lemma_failed_group_fails_the_run(
    codepage: Codepage,
    all: Seq<(u16, Seq<char>)>,
    k: int,
)
    requires
        1 <= k <= all.len(),
        group_bytes(codepage, all[k - 1].0, all[k - 1].1) is None,
    ensures
        groups_bytes(codepage, all) is None,
    decreases all.len(),
{
    if k < all.len() {
        assert(all.drop_last()[k - 1] == all[k - 1]);
        lemma_failed_group_fails_the_run(codepage, all.drop_last(), k);
    }
}

/// A handle's hexadecimal digits are few.
proof fn lemma_upper_hex_is_short(n: nat)
    requires
        n <= u32::MAX,
    ensures
        upper_hex(n).len() <= 8,
{
    assert(pow16(8) == 0x1_0000_0000) by {
        reveal_with_fuel(pow16, 9);
    }
    lemma_upper_hex_len_below(n, 8);
}

/// Below `16^k`, at most `k` hexadecimal digits.
proof fn lemma_upper_hex_len_below(n: nat, k: nat)
    requires
        k >= 1,
        n < pow16(k),
    ensures
        upper_hex(n).len() <= k,
    decreases n,
{
    if n >= 16 {
        assert(k >= 2) by {
            if k == 1 {
                assert(pow16(1) == 16) by {
                    reveal_with_fuel(pow16, 2);
                }
            }
        }
        assert(pow16(k) == 16 * pow16((k - 1) as nat));
        assert(n / 16 < pow16((k - 1) as nat));
        lemma_upper_hex_len_below(n / 16, (k - 1) as nat);
    }
}

/// `16` to the power `k`.
spec fn pow16(k: nat) -> nat
    decreases k,
{
    if k == 0 {
        1
    } else {
        16 * pow16((k - 1) as nat)
    }
}

/// A flag word's decimal digits are few.
proof fn lemma_decimal_chars_is_short(n: nat)
    ensures
        n < 10 ==> decimal_chars(n).len() <= 1,
        n < 100 ==> decimal_chars(n).len() <= 2,
        n < 1000 ==> decimal_chars(n).len() <= 3,
        n < 10000 ==> decimal_chars(n).len() <= 4,
        n < 100000 ==> decimal_chars(n).len() <= 5,
    decreases n,
{
    if n >= 10 {
        lemma_decimal_chars_is_short(n / 10);
    }
}

} // verus!
