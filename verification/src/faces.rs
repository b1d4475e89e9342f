//! The integer side of face detection and recognition: the anchor grid of the
//! detector, the lookup of its output tensors by shape, the grouping of the
//! faces found back to the images they came from, and the parsing of the
//! attributes a client asks for.
use vstd::prelude::*;
use crate::errors::AIProxyError;
use crate::keyed::StrMap;
use crate::store::{ModelResponse, response_keys};
use crate::keyval::{MetadataKind, MetadataValue, StoreValue, ValueView};
use crate::text::{concat_str, decimal, decimal_string};

verus! {

/// The side, in pixels, of the square the detector sees.
pub const INPUT_SIZE: usize = 640;

/// An anchor point of the detector, in pixels, with the stride of its level.
#[derive(Clone, Copy, Debug, PartialEq, Eq, Structural)]
pub struct GridAnchor {
    pub x: usize,
    pub y: usize,
    pub stride: usize,
}

/// The `k`-th anchor of the level with this stride: cells are taken row by
/// row, each cell's corner twice.
pub open spec fn anchor_in_level(stride: nat, k: int) -> GridAnchor {
    let n = 640nat / stride;
    let cell = k / 2;
    GridAnchor {
        x: ((cell % (n as int)) * stride) as usize,
        y: ((cell / (n as int)) * stride) as usize,
        stride: stride as usize,
    }
}

/// The first `m` anchors of a level.
pub open spec fn level_prefix(stride: nat, m: nat) -> Seq<GridAnchor> {
    Seq::new(m, |k: int| anchor_in_level(stride, k))
}

/// The number of anchors of the level with this stride.
pub open spec fn level_count(stride: nat) -> nat {
    (640nat / stride) * (640nat / stride) * 2
}

/// The anchors of one level.
pub open spec fn level_anchors(stride: nat) -> Seq<GridAnchor> {
    level_prefix(stride, level_count(stride))
}

/// Every anchor, level by level from the finest stride: the order in which the
/// detector emits its rows.
pub open spec fn all_anchors() -> Seq<GridAnchor> {
    level_anchors(8) + level_anchors(16) + level_anchors(32)
}

/// The number of anchors at a stride.
pub fn anchors_at(stride: usize) -> (res: usize)
    requires
        0 < stride,
    ensures
        res == level_count(stride as nat),
{
    let cells = INPUT_SIZE / stride;
    assert(cells <= 640) by (nonlinear_arith)
        requires
            cells == 640int / (stride as int),
            stride > 0,
    ;
    assert(cells * cells * 2 <= 819200) by (nonlinear_arith)
        requires
            cells <= 640,
    ;
    cells * cells * 2
}

proof fn lemma_anchor_at(stride: nat, n: nat, row: nat, col: nat)
    requires
        stride > 0,
        n == 640nat / stride,
        row < n,
        col < n,
    ensures
        row * n + col < n * n,
        col * stride < 640,
        row * stride < 640,
        anchor_in_level(stride, ((row * n + col) * 2) as int) == (GridAnchor {
            x: (col * stride) as usize,
            y: (row * stride) as usize,
            stride: stride as usize,
        }),
        anchor_in_level(stride, ((row * n + col) * 2 + 1) as int) == (GridAnchor {
            x: (col * stride) as usize,
            y: (row * stride) as usize,
            stride: stride as usize,
        }),
{
    let c = row * n + col;
    vstd::arithmetic::div_mod::lemma_fundamental_div_mod_converse((c * 2) as int, 2, c as int, 0);
    vstd::arithmetic::div_mod::lemma_fundamental_div_mod_converse(
        (c * 2 + 1) as int,
        2,
        c as int,
        1,
    );
    vstd::arithmetic::div_mod::lemma_fundamental_div_mod_converse(
        c as int,
        n as int,
        row as int,
        col as int,
    );
    vstd::arithmetic::div_mod::lemma_fundamental_div_mod(640, stride as int);
    assert(n * stride <= 640);
    assert(col * stride < 640 && row * stride < 640) by (nonlinear_arith)
        requires
            col < n,
            row < n,
            n * stride <= 640,
            stride > 0,
    ;
    assert(row * n + col < n * n) by (nonlinear_arith)
        requires
            col < n,
            row < n,
    ;
}

/// Appends the anchors of the level with this stride.
fn push_level(out: &mut Vec<GridAnchor>, stride: usize)
    requires
        0 < stride <= 640,
    ensures
        final(out)@ == old(out)@ + level_anchors(stride as nat),
{
    let n = INPUT_SIZE / stride;
    let ghost base = out@;
    assert(n <= 640) by (nonlinear_arith)
        requires
            n == 640int / (stride as int),
            stride > 0,
    ;
    let mut row: usize = 0;
    while row < n
        invariant
            0 < stride <= 640,
            n == 640nat / (stride as nat),
            n <= 640,
            row <= n,
            out@ == base + level_prefix(stride as nat, (row * n * 2) as nat),
        decreases n - row,
    {
        let mut col: usize = 0;
        while col < n
            invariant
                0 < stride <= 640,
                n == 640nat / (stride as nat),
                n <= 640,
                row < n,
                col <= n,
                out@ == base + level_prefix(stride as nat, ((row * n + col) * 2) as nat),
            decreases n - col,
        {
            proof {
                lemma_anchor_at(stride as nat, n as nat, row as nat, col as nat);
            }
            let a = GridAnchor { x: col * stride, y: row * stride, stride };
            let ghost m = ((row * n + col) * 2) as nat;
            out.push(a);
            out.push(a);
            proof {
                assert(level_prefix(stride as nat, m + 2) =~= level_prefix(stride as nat, m).push(
                    a,
                ).push(a));
                assert(((row * n + col + 1) * 2) as nat == m + 2) by (nonlinear_arith)
                    requires
                        m == (row * n + col) * 2,
                ;
            }
            col = col + 1;
        }
        proof {
            assert(((row * n + n) * 2) as nat == ((row + 1) * n * 2) as nat) by (nonlinear_arith);
        }
        row = row + 1;
    }
    proof {
        assert((n * n * 2) as nat == level_count(stride as nat));
    }
}

/// The anchor points of every level, in the order the detector emits its rows.
pub fn generate_anchors() -> (res: Vec<GridAnchor>)
    ensures
        res@ == all_anchors(),
{
    let mut anchors: Vec<GridAnchor> = Vec::new();
    push_level(&mut anchors, 8);
    push_level(&mut anchors, 16);
    push_level(&mut anchors, 32);
    assert(anchors@ =~= all_anchors());
    anchors
}

/// An output of the detector: its shape, and whether its data lies in one
/// contiguous run that can be read as a flat slice.
#[derive(Debug)]
pub struct OutputShape {
    pub dims: Vec<usize>,
    pub contiguous: bool,
}

/// The output has the shape `[rows, cols]`.
pub open spec fn has_shape(o: OutputShape, rows: nat, cols: nat) -> bool {
    o.dims@ == seq![rows as usize, cols as usize]
}

/// The message of a missing output.
pub open spec fn missing_output_message(rows: nat, cols: nat, stride: nat) -> Seq<char> {
    "SCRFD output ["@ + decimal(rows) + ", "@ + decimal(cols) + "] missing for stride "@ + decimal(
        stride,
    )
}

/// The position of the first output of shape `[rows, cols]`, which must be
/// readable as a flat slice; otherwise an error naming the shape and stride.
pub fn by_shape(outputs: &Vec<OutputShape>, rows: usize, cols: usize, stride: usize) -> (res: Result<
    usize,
    AIProxyError,
>)
    ensures
        match res {
            Ok(i) => i < outputs@.len() && has_shape(outputs@[i as int], rows as nat, cols as nat)
                && outputs@[i as int].contiguous && forall|j: int|
                0 <= j < i ==> !has_shape(#[trigger] outputs@[j], rows as nat, cols as nat),
            Err(e) => (e matches AIProxyError::ModelProviderPostprocessingError(m) && m@
                == missing_output_message(rows as nat, cols as nat, stride as nat)) && !exists|
                i: int,
            |
                0 <= i < outputs@.len() && has_shape(#[trigger] outputs@[i], rows as nat, cols as nat)
                    && outputs@[i].contiguous && forall|j: int|
                    0 <= j < i ==> !has_shape(#[trigger] outputs@[j], rows as nat, cols as nat),
        },
{
    let mut i: usize = 0;
    while i < outputs.len()
        invariant
            0 <= i <= outputs@.len(),
            forall|j: int| 0 <= j < i ==> !has_shape(#[trigger] outputs@[j], rows as nat, cols as nat),
        decreases outputs@.len() - i,
    {
        let o = &outputs[i];
        if o.dims.len() == 2 && o.dims[0] == rows && o.dims[1] == cols {
            assert(o.dims@ =~= seq![rows, cols]);
            if o.contiguous {
                return Ok(i);
            } else {
                return Err(missing_output_error(rows, cols, stride));
            }
        }
        proof {
            if o.dims@ == seq![rows, cols] {
                assert(o.dims@.len() == 2 && o.dims@[0] == rows && o.dims@[1] == cols);
            }
        }
        i = i + 1;
    }
    Err(missing_output_error(rows, cols, stride))
}

fn missing_output_error(rows: usize, cols: usize, stride: usize) -> (res: AIProxyError)
    ensures
        res matches AIProxyError::ModelProviderPostprocessingError(m) && m@ == missing_output_message(
            rows as nat,
            cols as nat,
            stride as nat,
        ),
{
    let a = concat_str("SCRFD output [", decimal_string(rows).as_str());
    let b = concat_str(a.as_str(), ", ");
    let c = concat_str(b.as_str(), decimal_string(cols).as_str());
    let d = concat_str(c.as_str(), "] missing for stride ");
    let e = concat_str(d.as_str(), decimal_string(stride).as_str());
    AIProxyError::ModelProviderPostprocessingError(e)
}

/// The sum of a list of counts.
pub open spec fn count_sum(c: Seq<usize>) -> nat
    decreases c.len(),
{
    if c.len() == 0 {
        0
    } else {
        (count_sum(c.drop_last()) + c.last()) as nat
    }
}

proof fn lemma_count_sum_prefix(c: Seq<usize>, i: int)
    requires
        0 <= i < c.len(),
    ensures
        count_sum(c.subrange(0, i + 1)) == count_sum(c.subrange(0, i)) + c[i],
        count_sum(c.subrange(0, i)) + c[i] <= count_sum(c),
    decreases c.len() - i,
{
    assert(c.subrange(0, i + 1).drop_last() =~= c.subrange(0, i));
    if i + 1 < c.len() {
        lemma_count_sum_prefix(c, i + 1);
    } else {
        assert(c.subrange(0, i + 1) =~= c);
    }
}

/// Splits the items found across a batch back per source: the first
/// `counts[0]` items to the first source, the next `counts[1]` to the second,
/// and so on. A source with a count of zero gets an empty group.
pub fn group_by_counts<E>(counts: &Vec<usize>, items: Vec<E>) -> (res: Vec<Vec<E>>)
    requires
        count_sum(counts@) <= items@.len(),
    ensures
        res@.len() == counts@.len(),
        forall|i: int|
            0 <= i < counts@.len() ==> (#[trigger] res@[i])@ == items@.subrange(
                count_sum(counts@.subrange(0, i)) as int,
                count_sum(counts@.subrange(0, i)) + counts@[i],
            ),
{
    let ghost all = items@;
    let total_items = items.len();
    let mut rest = crate::seqs::reversed(items);
    let mut out: Vec<Vec<E>> = Vec::new();
    let mut i: usize = 0;
    let mut taken: usize = 0;
    while i < counts.len()
        invariant
            0 <= i <= counts@.len(),
            count_sum(counts@) <= all.len(),
            total_items == all.len(),
            taken == count_sum(counts@.subrange(0, i as int)),
            taken <= count_sum(counts@) || i == 0,
            rest@.len() + taken == all.len(),
            forall|k: int| 0 <= k < rest@.len() ==> #[trigger] rest@[k] == all[all.len() - 1 - k],
            out@.len() == i,
            forall|k: int|
                0 <= k < i ==> (#[trigger] out@[k])@ == all.subrange(
                    count_sum(counts@.subrange(0, k)) as int,
                    count_sum(counts@.subrange(0, k)) + counts@[k],
                ),
        decreases counts@.len() - i,
    {
        proof {
            lemma_count_sum_prefix(counts@, i as int);
        }
        let want = counts[i];
        let mut group: Vec<E> = Vec::new();
        let mut j: usize = 0;
        while j < want
            invariant
                0 <= j <= want,
                taken + want <= all.len(),
                rest@.len() + taken + j == all.len(),
                forall|k: int| 0 <= k < rest@.len() ==> #[trigger] rest@[k] == all[all.len() - 1 - k],
                group@ == all.subrange(taken as int, taken + j),
            decreases want - j,
        {
            let x = rest.pop().unwrap();
            group.push(x);
            proof {
                assert(group@ =~= all.subrange(taken as int, taken + j + 1));
            }
            j = j + 1;
        }
        out.push(group);
        taken = taken + want;
        i = i + 1;
    }
    out
}

/// Whether `c` is white space, as `char::is_whitespace` has it (the Unicode
/// `White_Space` property).
pub open spec fn is_space(c: char) -> bool {
    let u = c as u32;
    (0x9 <= u <= 0xd) || u == 0x20 || u == 0x85 || u == 0xa0 || u == 0x1680 || (0x2000 <= u
        <= 0x200a) || u == 0x2028 || u == 0x2029 || u == 0x202f || u == 0x205f || u == 0x3000
}

fn space(c: char) -> (res: bool)
    ensures
        res == is_space(c),
{
    let u = c as u32;
    (0x9 <= u && u <= 0xd) || u == 0x20 || u == 0x85 || u == 0xa0 || u == 0x1680 || (0x2000 <= u
        && u <= 0x200a) || u == 0x2028 || u == 0x2029 || u == 0x202f || u == 0x205f || u == 0x3000
}

/// `s` without leading white space.
pub open spec fn trim_start(s: Seq<char>) -> Seq<char>
    decreases s.len(),
{
    if s.len() > 0 && is_space(s[0]) {
        trim_start(s.drop_first())
    } else {
        s
    }
}

/// `s` without trailing white space.
pub open spec fn trim_end(s: Seq<char>) -> Seq<char>
    decreases s.len(),
{
    if s.len() > 0 && is_space(s.last()) {
        trim_end(s.drop_last())
    } else {
        s
    }
}

/// `s` without white space at either end, as `str::trim` gives it.
pub open spec fn trimmed(s: Seq<char>) -> Seq<char> {
    trim_end(trim_start(s))
}

/// The pieces of `s` between commas, as `str::split(',')` gives them; there is
/// always at least one.
pub open spec fn comma_fields(s: Seq<char>) -> Seq<Seq<char>>
    decreases s.len(),
{
    if s.len() == 0 {
        seq![Seq::empty()]
    } else if s.last() == ',' {
        comma_fields(s.drop_last()).push(Seq::empty())
    } else {
        let f = comma_fields(s.drop_last());
        f.update(f.len() - 1, f.last().push(s.last()))
    }
}

/// Some comma-separated piece of `attrs`, trimmed, is `name`.
pub open spec fn lists_attribute(attrs: Seq<char>, name: Seq<char>) -> bool {
    exists|i: int| 0 <= i < comma_fields(attrs).len() && trimmed(#[trigger] comma_fields(attrs)[i]) == name
}

/// The characters of `v[from..to]` without white space at either end.
fn trim_range(v: &Vec<char>, from: usize, to: usize) -> (res: (usize, usize))
    requires
        from <= to <= v@.len(),
    ensures
        from <= res.0 <= res.1 <= to,
        v@.subrange(res.0 as int, res.1 as int) == trimmed(v@.subrange(from as int, to as int)),
{
    let mut a = from;
    while a < to && space(v[a])
        invariant
            from <= a <= to,
            to <= v@.len(),
            trim_start(v@.subrange(from as int, to as int)) == trim_start(v@.subrange(a as int, to as int)),
        decreases to - a,
    {
        proof {
            assert(v@.subrange(a as int, to as int).drop_first() =~= v@.subrange(a as int + 1, to as int));
        }
        a = a + 1;
    }
    proof {
        if a < to {
            assert(v@.subrange(a as int, to as int)[0] == v@[a as int]);
        }
    }
    let mut b = to;
    while b > a && space(v[b - 1])
        invariant
            a <= b <= to,
            to <= v@.len(),
            trim_end(v@.subrange(a as int, to as int)) == trim_end(v@.subrange(a as int, b as int)),
        decreases b - a,
    {
        proof {
            assert(v@.subrange(a as int, b as int).drop_last() =~= v@.subrange(a as int, b as int - 1));
        }
        b = b - 1;
    }
    proof {
        if b > a {
            assert(v@.subrange(a as int, b as int).last() == v@[b - 1]);
        }
    }
    (a, b)
}

/// The characters of a string.
fn chars_of(s: &str) -> (res: Vec<char>)
    ensures
        res@ == s@,
{
    let n = s.unicode_len();
    let mut out: Vec<char> = Vec::new();
    let mut i: usize = 0;
    while i < n
        invariant
            n == s@.len(),
            0 <= i <= n,
            out@ == s@.subrange(0, i as int),
        decreases n - i,
    {
        out.push(s.get_char(i));
        proof {
            assert(out@ =~= s@.subrange(0, i as int + 1));
        }
        i = i + 1;
    }
    assert(out@ =~= s@);
    out
}

/// Whether `v[from..to]` holds exactly the characters of `name`.
fn range_is(v: &Vec<char>, from: usize, to: usize, name: &Vec<char>) -> (res: bool)
    requires
        from <= to <= v@.len(),
    ensures
        res == (v@.subrange(from as int, to as int) == name@),
{
    if to - from != name.len() {
        return false;
    }
    let mut k: usize = 0;
    while k < name.len()
        invariant
            to - from == name@.len(),
            from <= to <= v@.len(),
            0 <= k <= name@.len(),
            forall|j: int| 0 <= j < k ==> v@[from + j] == name@[j],
        decreases name@.len() - k,
    {
        if v[from + k] != name[k] {
            return false;
        }
        k = k + 1;
    }
    assert(v@.subrange(from as int, to as int) =~= name@);
    true
}

/// Whether the comma-separated list `attrs` names `name`, each piece compared
/// after trimming white space.
pub fn has_attribute(attrs: &str, name: &str) -> (res: bool)
    ensures
        res == lists_attribute(attrs@, name@),
{
    let v = chars_of(attrs);
    let want = chars_of(name);
    let mut start: usize = 0;
    let mut i: usize = 0;
    let mut found = false;
    proof {
        assert(v@.subrange(0, 0) =~= Seq::<char>::empty());
    }
    while i < v.len()
        invariant
            v@ == attrs@,
            want@ == name@,
            0 <= start <= i <= v@.len(),
            comma_fields(v@.subrange(0, i as int)).last() == v@.subrange(start as int, i as int),
            comma_fields(v@.subrange(0, i as int)).len() >= 1,
            found == exists|j: int|
                0 <= j < comma_fields(v@.subrange(0, i as int)).len() - 1 && trimmed(
                    #[trigger] comma_fields(v@.subrange(0, i as int))[j],
                ) == name@,
        decreases v@.len() - i,
    {
        let ghost before = comma_fields(v@.subrange(0, i as int));
        let ghost after = comma_fields(v@.subrange(0, i as int + 1));
        let ghost old_found = found;
        proof {
            assert(v@.subrange(0, i as int + 1).drop_last() =~= v@.subrange(0, i as int));
            assert(v@.subrange(0, i as int + 1).last() == v@[i as int]);
            if old_found {
                let j = choose|j: int|
                    0 <= j < before.len() - 1 && trimmed(#[trigger] before[j]) == name@;
                if v@[i as int] == ',' {
                    assert(after == before.push(Seq::empty()));
                } else {
                    assert(after == before.update(before.len() - 1, before.last().push(v@[i as int])));
                }
                assert(after[j] == before[j]);
                assert(trimmed(after[j]) == name@);
            }
        }
        if v[i] == ',' {
            let (a, b) = trim_range(&v, start, i);
            let hit = range_is(&v, a, b, &want);
            proof {
                assert(after == before.push(Seq::empty()));
                assert(after[before.len() - 1] == before.last());
                if hit {
                    assert(trimmed(after[before.len() - 1]) == name@);
                }
                if !old_found && !hit {
                    assert forall|j: int| 0 <= j < after.len() - 1 implies trimmed(
                        #[trigger] after[j],
                    ) != name@ by {
                        if j < before.len() - 1 {
                            assert(after[j] == before[j]);
                        }
                    }
                }
                assert(v@.subrange(i as int + 1, i as int + 1) =~= Seq::<char>::empty());
            }
            found = found || hit;
            start = i + 1;
        } else {
            proof {
                assert(after == before.update(before.len() - 1, before.last().push(v@[i as int])));
                assert(v@.subrange(start as int, i as int + 1) =~= v@.subrange(start as int, i as int).push(
                    v@[i as int],
                ));
                if !old_found {
                    assert forall|j: int| 0 <= j < after.len() - 1 implies trimmed(
                        #[trigger] after[j],
                    ) != name@ by {
                        assert(after[j] == before[j]);
                    }
                }
            }
        }
        i = i + 1;
    }
    let (a, b) = trim_range(&v, start, v.len());
    let hit = range_is(&v, a, b, &want);
    proof {
        assert(v@.subrange(0, v@.len() as int) =~= v@);
        let f = comma_fields(v@);
        if hit {
            assert(trimmed(f[f.len() - 1]) == name@);
        }
        if !(found || hit) {
            assert forall|j: int| 0 <= j < f.len() implies trimmed(#[trigger] f[j]) != name@ by {
                if j < f.len() - 1 {
                } else {
                    assert(f[j] == v@.subrange(start as int, v@.len() as int));
                }
            }
        }
    }
    found || hit
}

/// Whether the model parameters ask for gender and age: the `attributes`
/// parameter lists `genderage`.
pub fn wants_genderage(model_params: &StrMap<String>) -> (res: bool)
    requires
        model_params.wf(),
    ensures
        res == (model_params@.dom().contains("attributes"@) && lists_attribute(
            model_params@["attributes"@]@,
            "genderage"@,
        )),
{
    match model_params.get("attributes") {
        Some(attrs) => has_attribute(attrs.as_str(), "genderage"),
        None => false,
    }
}

/// The parameter under which the size of the `idx`-th image is recorded:
/// `name`, an underscore, and the index in decimal.
pub open spec fn indexed_key(name: Seq<char>, idx: nat) -> Seq<char> {
    name + "_"@ + decimal(idx)
}

/// The parameter for the size of the `idx`-th image.
pub fn dimension_param_key(name: &str, idx: usize) -> (res: String)
    ensures
        res@ == indexed_key(name@, idx as nat),
{
    let a = concat_str(name, "_");
    concat_str(a.as_str(), decimal_string(idx).as_str())
}

/// The parameters under which the proxy records the size of the `idx`-th
/// input image are those under which a face model looks up the size of its
/// `idx`-th image.
pub proof fn law_image_dimension_keys_agree(idx: nat)
    ensures
        "orig_width_"@ + decimal(idx) == indexed_key("orig_width"@, idx),
        "orig_height_"@ + decimal(idx) == indexed_key("orig_height"@, idx),
{
    reveal_strlit("orig_width_");
    reveal_strlit("orig_width");
    reveal_strlit("orig_height_");
    reveal_strlit("orig_height");
    reveal_strlit("_");
    assert("orig_width_"@ =~= "orig_width"@ + "_"@);
    assert("orig_height_"@ =~= "orig_height"@ + "_"@);
    assert("orig_width"@ + "_"@ + decimal(idx) =~= ("orig_width"@ + "_"@) + decimal(idx));
}

/// Distinct images have their sizes recorded under distinct parameters.
pub proof fn law_distinct_images_get_distinct_keys(name: Seq<char>, i: nat, j: nat)
    requires
        i != j,
    ensures
        indexed_key(name, i) != indexed_key(name, j),
{
    if indexed_key(name, i) == indexed_key(name, j) {
        let p = name + "_"@;
        assert(indexed_key(name, i).subrange(p.len() as int, indexed_key(name, i).len() as int)
            =~= decimal(i));
        assert(indexed_key(name, j).subrange(p.len() as int, indexed_key(name, j).len() as int)
            =~= decimal(j));
        crate::text::law_decimal_is_injective(i, j);
    }
}

/// The metadata of one detected face: its box, normalized to the original
/// image, and its confidence, each as text; and, when gender and age were
/// asked for and predicted, the two gender probabilities and the age.
pub open spec fn face_metadata_view(
    bbox: Seq<Seq<char>>,
    confidence: Seq<char>,
    gender_age: Option<(Seq<char>, Seq<char>, Seq<char>)>,
) -> Map<Seq<char>, Option<ValueView>> {
    let base = Map::<Seq<char>, Option<ValueView>>::empty().insert(
        "bbox_x1"@,
        Some(ValueView::RawString(bbox[0])),
    ).insert("bbox_y1"@, Some(ValueView::RawString(bbox[1]))).insert(
        "bbox_x2"@,
        Some(ValueView::RawString(bbox[2])),
    ).insert("bbox_y2"@, Some(ValueView::RawString(bbox[3]))).insert(
        "confidence"@,
        Some(ValueView::RawString(confidence)),
    );
    match gender_age {
        Some((female, male, age)) => base.insert(
            "gender_female_prob"@,
            Some(ValueView::RawString(female)),
        ).insert("gender_male_prob"@, Some(ValueView::RawString(male))).insert(
            "age"@,
            Some(ValueView::RawString(age)),
        ),
        None => base,
    }
}

/// The metadata of a face holds its box corners, its confidence and, when an
/// estimate is given, the female probability under `gender_female_prob`, the
/// male probability under `gender_male_prob` and the age under `age`; with no
/// estimate, none of those three keys is present.
pub proof fn law_face_metadata_fields(
    bbox: Seq<Seq<char>>,
    confidence: Seq<char>,
    gender_age: Option<(Seq<char>, Seq<char>, Seq<char>)>,
)
    ensures
        face_metadata_view(bbox, confidence, gender_age).dom().contains("confidence"@),
        face_metadata_view(bbox, confidence, gender_age)["confidence"@] == Some(ValueView::RawString(confidence)),
        face_metadata_view(bbox, confidence, gender_age)["bbox_x1"@] == Some(ValueView::RawString(bbox[0])),
        face_metadata_view(bbox, confidence, gender_age)["bbox_y1"@] == Some(ValueView::RawString(bbox[1])),
        face_metadata_view(bbox, confidence, gender_age)["bbox_x2"@] == Some(ValueView::RawString(bbox[2])),
        face_metadata_view(bbox, confidence, gender_age)["bbox_y2"@] == Some(ValueView::RawString(bbox[3])),
        match gender_age {
            Some((female, male, age)) => {
                &&& face_metadata_view(bbox, confidence, gender_age)["gender_female_prob"@]
                    == Some(ValueView::RawString(female))
                &&& face_metadata_view(bbox, confidence, gender_age)["gender_male_prob"@]
                    == Some(ValueView::RawString(male))
                &&& face_metadata_view(bbox, confidence, gender_age)["age"@] == Some(ValueView::RawString(age))
            },
            None => {
                &&& !face_metadata_view(bbox, confidence, gender_age).dom().contains("gender_female_prob"@)
                &&& !face_metadata_view(bbox, confidence, gender_age).dom().contains("gender_male_prob"@)
                &&& !face_metadata_view(bbox, confidence, gender_age).dom().contains("age"@)
            },
        },
{
    reveal_strlit("bbox_x1");
    reveal_strlit("bbox_y1");
    reveal_strlit("bbox_x2");
    reveal_strlit("bbox_y2");
    reveal_strlit("confidence");
    reveal_strlit("gender_female_prob");
    reveal_strlit("gender_male_prob");
    reveal_strlit("age");
    assert("bbox_x1"@.len() == 7 && "bbox_y1"@.len() == 7 && "bbox_x2"@.len() == 7 && "bbox_y2"@.len() == 7);
    assert("confidence"@.len() == 10 && "gender_female_prob"@.len() == 18 && "gender_male_prob"@.len() == 16
        && "age"@.len() == 3);
    assert("bbox_x1"@ != "bbox_y1"@ && "bbox_x1"@ != "bbox_x2"@ && "bbox_x1"@ != "bbox_y2"@) by {
        assert("bbox_x1"@[5] != "bbox_y1"@[5]);
        assert("bbox_x1"@[6] != "bbox_x2"@[6]);
        assert("bbox_x1"@[5] != "bbox_y2"@[5]);
    }
    assert("bbox_y1"@ != "bbox_x2"@ && "bbox_y1"@ != "bbox_y2"@ && "bbox_x2"@ != "bbox_y2"@) by {
        assert("bbox_y1"@[5] != "bbox_x2"@[5]);
        assert("bbox_y1"@[6] != "bbox_y2"@[6]);
        assert("bbox_x2"@[5] != "bbox_y2"@[5]);
    }
}

fn text_value(s: String) -> (res: MetadataValue)
    ensures
        res@ == Some(ValueView::RawString(s@)),
{
    MetadataValue { value: Some(MetadataKind::RawString(s)) }
}

/// The metadata stored with one detected face.
pub fn face_metadata(
    x1: String,
    y1: String,
    x2: String,
    y2: String,
    confidence: String,
    gender_age: Option<(String, String, String)>,
) -> (res: StoreValue)
    ensures
        res.wf(),
        res@ == face_metadata_view(
            seq![x1@, y1@, x2@, y2@],
            confidence@,
            match gender_age {
                Some((f, m, a)) => Some((f@, m@, a@)),
                None => None,
            },
        ),
        gender_age matches Some((f, m, a)) ==> res@["gender_female_prob"@] == Some(ValueView::RawString(f@))
            && res@["gender_male_prob"@] == Some(ValueView::RawString(m@)) && res@["age"@] == Some(
            ValueView::RawString(a@),
        ),
{
    let ghost views = seq![x1@, y1@, x2@, y2@];
    let ghost ga = match &gender_age {
        Some((f, m, a)) => Some((f@, m@, a@)),
        None => None,
    };
    let ghost cv = confidence@;
    let mut v = StoreValue::new();
    v.insert(String::from_str("bbox_x1"), text_value(x1));
    v.insert(String::from_str("bbox_y1"), text_value(y1));
    v.insert(String::from_str("bbox_x2"), text_value(x2));
    v.insert(String::from_str("bbox_y2"), text_value(y2));
    v.insert(String::from_str("confidence"), text_value(confidence));
    match gender_age {
        Some((female, male, age)) => {
            v.insert(String::from_str("gender_female_prob"), text_value(female));
            v.insert(String::from_str("gender_male_prob"), text_value(male));
            v.insert(String::from_str("age"), text_value(age));
        },
        None => {},
    }
    proof {
        assert(v@ =~= face_metadata_view(views, cv, ga));
        law_face_metadata_fields(views, cv, ga);
    }
    v
}

/// The metadata of a face for a request with these model parameters: the
/// gender and age estimate `predicted` is recorded only when the request asks
/// for the `genderage` attribute, as only then is it computed.
pub fn face_metadata_for_request(
    model_params: &StrMap<String>,
    x1: String,
    y1: String,
    x2: String,
    y2: String,
    confidence: String,
    predicted: Option<(String, String, String)>,
) -> (res: StoreValue)
    requires
        model_params.wf(),
    ensures
        res.wf(),
        res@ == face_metadata_view(
            seq![x1@, y1@, x2@, y2@],
            confidence@,
            if model_params@.dom().contains("attributes"@) && lists_attribute(
                model_params@["attributes"@]@,
                "genderage"@,
            ) {
                match predicted {
                    Some((f, m, a)) => Some((f@, m@, a@)),
                    None => None,
                }
            } else {
                None
            },
        ),
{
    let gender_age = if wants_genderage(model_params) {
        predicted
    } else {
        None
    };
    face_metadata(x1, y1, x2, y2, confidence, gender_age)
}

/// The model's answer for a batch of images: for each image, the faces found
/// in it, each with its embedding and metadata, in the order they were found.
/// An image without faces gets an empty answer.
pub fn face_responses<K>(counts: &Vec<usize>, faces: Vec<K>) -> (res: Vec<ModelResponse<K>>)
    requires
        count_sum(counts@) <= faces@.len(),
    ensures
        res@.len() == counts@.len(),
        forall|i: int|
            0 <= i < counts@.len() ==> (#[trigger] res@[i]) is OneToMany && response_keys(res@[i])
                == faces@.subrange(
                count_sum(counts@.subrange(0, i)) as int,
                count_sum(counts@.subrange(0, i)) + counts@[i],
            ),
{
    let groups = group_by_counts(counts, faces);
    let ghost gs = groups@;
    let mut rest = crate::seqs::reversed(groups);
    let total = rest.len();
    let mut out: Vec<ModelResponse<K>> = Vec::new();
    let mut n: usize = 0;
    while rest.len() > 0
        invariant
            n + rest@.len() == gs.len(),
            total == gs.len(),
            forall|i: int| 0 <= i < rest@.len() ==> #[trigger] rest@[i] == gs[gs.len() - 1 - i],
            out@.len() == n,
            forall|i: int| 0 <= i < n ==> (#[trigger] out@[i]) is OneToMany && response_keys(out@[i]) == gs[i]@,
        decreases rest@.len(),
    {
        let g = rest.pop().unwrap();
        out.push(ModelResponse::OneToMany(g));
        n = n + 1;
    }
    out
}

} // verus!
