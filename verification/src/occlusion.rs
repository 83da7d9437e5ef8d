//! Z-index bookkeeping during render-tree traversal: tracks which native or
//! canvas layer drawing currently targets, and mints canvas element ids.

use vstd::prelude::*;

verus! {

/// The rendering layer a node draws to.
#[derive(Clone, Copy, Debug, PartialEq, Eq, Structural)]
pub enum Layer {
    Native,
    Scroller,
    Canvas,
    DontCare,
}

/// Captures z-index information while walking the render tree; used to
/// assemble the per-layer canvas structure on the host side.
#[derive(Clone)]
pub struct OcclusionLayerGen {
    canvas_index: u32,
    layer: Layer,
    parent_scroller: Option<Vec<u32>>,
}

impl OcclusionLayerGen {
    /// The current canvas depth.
    pub closed spec fn level(self) -> u32 {
        self.canvas_index
    }

    /// The layer the walk is currently in.
    pub closed spec fn current_layer(self) -> Layer {
        self.layer
    }

    pub fn new(scroller_id: Option<Vec<u32>>) -> (r: Self)
        ensures
            r.level() == 0,
            r.current_layer() == Layer::Canvas,
    {
        OcclusionLayerGen { canvas_index: 0, layer: Layer::Canvas, parent_scroller: scroller_id }
    }

    pub fn get_level(&mut self) -> (r: u32)
        ensures
            *final(self) == *old(self),
            r == old(self).level(),
    {
        self.canvas_index
    }

    pub fn get_current_layer(&mut self) -> (r: Layer)
        ensures
            *final(self) == *old(self),
            r == old(self).current_layer(),
    {
        self.layer
    }

    /// Note a layer change: entering a canvas or scroller layer from a
    /// different layer starts a new canvas; `DontCare` nodes leave the state
    /// untouched.
    pub fn update_z_index(&mut self, layer: Layer)
        requires
            old(self).level() < 0xffff_ffff,
        ensures
            final(self).current_layer() == (if layer is DontCare {
                old(self).current_layer()
            } else {
                layer
            }),
            final(self).level() as int == (if !(layer is DontCare) && old(self).current_layer()
                != layer && (layer is Canvas || layer is Scroller) {
                old(self).level() + 1
            } else {
                old(self).level() as int
            }),
    {
        match layer {
            Layer::DontCare => {},
            _ => {
                if self.layer != layer {
                    if layer == Layer::Canvas || layer == Layer::Scroller {
                        self.canvas_index = self.canvas_index + 1;
                    }
                }
                self.layer = layer;
            },
        }
    }

    /// The canvas element id for a z-index: the scroller id path (as a
    /// bracketed, comma-separated list) joined to the index with an
    /// underscore, or the bare index without a scroller.
    pub fn assemble_canvas_id(scroller_id: Option<Vec<u32>>, z_index: u32) -> (r: String)
        ensures
            r@ == (match scroller_id {
                Option::Some(id) => spec_u32_list(id@) + seq!['_'] + spec_u32_decimal(
                    z_index as int,
                ),
                Option::None => spec_u32_decimal(z_index as int),
            }),
    {
        match scroller_id {
            Option::Some(id) => {
                let mut s = u32_list_string(&id);
                s.append("_");
                proof {
                    reveal_strlit("_");
                }
                let digits = u32_to_string(z_index);
                s.append(digits.as_str());
                s
            },
            Option::None => u32_to_string(z_index),
        }
    }
}

/// The decimal digits of a non-negative number, most significant first.
pub open spec fn spec_u32_decimal(n: int) -> Seq<char>
    decreases n,
{
    if n <= 0 {
        seq!['0']
    } else if n < 10 {
        seq![digit_char(n)]
    } else {
        spec_u32_decimal(n / 10).push(digit_char(n % 10))
    }
}

/// The character for one decimal digit.
pub open spec fn digit_char(d: int) -> char {
    if d == 0 {
        '0'
    } else if d == 1 {
        '1'
    } else if d == 2 {
        '2'
    } else if d == 3 {
        '3'
    } else if d == 4 {
        '4'
    } else if d == 5 {
        '5'
    } else if d == 6 {
        '6'
    } else if d == 7 {
        '7'
    } else if d == 8 {
        '8'
    } else {
        '9'
    }
}

/// Append one digit character to a string.
pub(crate) fn push_digit(s: &mut String, d: u32)
    requires
        d < 10,
    ensures
        final(s)@ == old(s)@.push(digit_char(d as int)),
{
    proof {
        reveal_strlit("0");
        reveal_strlit("1");
        reveal_strlit("2");
        reveal_strlit("3");
        reveal_strlit("4");
        reveal_strlit("5");
        reveal_strlit("6");
        reveal_strlit("7");
        reveal_strlit("8");
        reveal_strlit("9");
    }
    if d == 0 {
        s.append("0");
    } else if d == 1 {
        s.append("1");
    } else if d == 2 {
        s.append("2");
    } else if d == 3 {
        s.append("3");
    } else if d == 4 {
        s.append("4");
    } else if d == 5 {
        s.append("5");
    } else if d == 6 {
        s.append("6");
    } else if d == 7 {
        s.append("7");
    } else if d == 8 {
        s.append("8");
    } else {
        s.append("9");
    }
    proof {
        assert(s@ =~= old(s)@.push(digit_char(d as int)));
    }
}

/// Write the decimal digits of `n` (past the given prefix).
pub(crate) fn append_decimal(s: &mut String, n: u32)
    ensures
        final(s)@ == old(s)@ + spec_u32_decimal(n as int),
    decreases n,
{
    if n < 10 {
        push_digit(s, n);
        proof {
            assert(s@ =~= old(s)@ + spec_u32_decimal(n as int));
        }
    } else {
        append_decimal(s, n / 10);
        push_digit(s, n % 10);
        proof {
            assert(s@ =~= old(s)@ + spec_u32_decimal(n as int));
        }
    }
}

/// The decimal rendering of a number.
pub fn u32_to_string(n: u32) -> (r: String)
    ensures
        r@ == spec_u32_decimal(n as int),
{
    let mut s = String::new();
    append_decimal(&mut s, n);
    proof {
        assert(s@ =~= spec_u32_decimal(n as int));
    }
    s
}

/// The debug-style rendering of a list of numbers: `[a, b, c]`.
pub open spec fn spec_u32_list(ids: Seq<u32>) -> Seq<char>
    decreases ids.len(),
{
    if ids.len() == 0 {
        seq!['[', ']']
    } else if ids.len() == 1 {
        seq!['['] + spec_u32_decimal(ids[0] as int) + seq![']']
    } else {
        spec_u32_list(ids.drop_last()).drop_last() + seq![',', ' '] + spec_u32_decimal(
            ids.last() as int,
        ) + seq![']']
    }
}

/// Render a list of numbers as `[a, b, c]`.
fn u32_list_string(ids: &Vec<u32>) -> (r: String)
    ensures
        r@ == spec_u32_list(ids@),
{
    let mut s = String::new();
    s.append("[");
    proof {
        reveal_strlit("[");
        reveal_strlit("]");
        reveal_strlit(", ");
    }
    let mut i: usize = 0;
    while i < ids.len()
        invariant
            i <= ids.len(),
            (s@ + seq![']']) == spec_u32_list(ids@.subrange(0, i as int)),
        decreases ids.len() - i,
    {
        let ghost pre = s@;
        if i > 0 {
            s.append(", ");
        }
        append_decimal(&mut s, ids[i]);
        proof {
            reveal_strlit(", ");
            let sub1 = ids@.subrange(0, i as int + 1);
            assert(sub1.drop_last() =~= ids@.subrange(0, i as int));
            assert(sub1.last() == ids@[i as int]);
            if i > 0 {
                assert(sub1.len() > 1);
                assert(spec_u32_list(sub1.drop_last()).drop_last() =~= pre);
                assert(s@ =~= pre + seq![',', ' '] + spec_u32_decimal(ids@[i as int] as int));
                assert((s@ + seq![']']) =~= spec_u32_list(sub1));
            } else {
                assert(sub1.len() == 1);
                assert((pre + seq![']']).len() == 2);
                assert(pre[0] == (pre + seq![']'])[0]);
                assert(pre =~= seq!['[']);
                assert(s@ =~= seq!['['] + spec_u32_decimal(ids@[0] as int));
                assert((s@ + seq![']']) =~= spec_u32_list(sub1));
            }
        }
        i = i + 1;
    }
    s.append("]");
    proof {
        assert(ids@.subrange(0, ids@.len() as int) =~= ids@);
        assert(s@ =~= spec_u32_list(ids@));
    }
    s
}

} // verus!
