//! Host style properties are parsed from their binding names: `style.width.px`, `class.active`,
//! `style!`, `class!important`.

use vstd::prelude::*;
use vstd::string::*;
use crate::text::{
    starts_with, ends_with, seq_starts_with, seq_ends_with, find_str, rfind_char, spec_find,
    spec_rfind_char, is_upper, is_lower, ascii_lower, char_is_uppercase, char_is_lowercase,
    to_ascii_lowercase, push_char, chars_of, string_of, suffix_from, prefix_to,
};
use crate::ir::{BindingKind, BindingOp, UpdateOp, SUpdateOp, SBinding, update_op_view, binding_view};
use crate::parse_util::opt_string_view;
use crate::compilation::HostBindingCompilationJob;

verus! {

/// Whether a property name is a custom CSS property (`--name`).
pub fn is_css_custom_property(name: &str) -> (r: bool)
    ensures
        r == seq_starts_with(name@, "--"@),
{
    starts_with(name, "--")
}

/// What the character at `i` contributes to the hyphenated form: a hyphen where an uppercase
/// letter follows a lowercase one, then the character lowercased (ASCII).
pub open spec fn hyphen_piece(s: Seq<char>, i: int) -> Seq<char> {
    if i > 0 && is_upper(s[i]) && is_lower(s[i - 1]) {
        seq!['-', ascii_lower(s[i])]
    } else {
        seq![ascii_lower(s[i])]
    }
}

/// camelCase to kebab-case.
pub open spec fn spec_hyphenate(s: Seq<char>) -> Seq<char>
    decreases s.len(),
{
    if s.len() == 0 {
        Seq::empty()
    } else {
        spec_hyphenate(s.drop_last()) + hyphen_piece(s, s.len() - 1)
    }
}

proof fn lemma_hyphen_piece_prefix(s: Seq<char>, t: Seq<char>, i: int)
    requires
        0 <= i < s.len(),
        i < t.len(),
        s.take(i + 1) == t.take(i + 1),
    ensures
        hyphen_piece(s, i) == hyphen_piece(t, i),
{
    assert(s[i] == s.take(i + 1)[i]);
    assert(t[i] == t.take(i + 1)[i]);
    if i > 0 {
        assert(s[i - 1] == s.take(i + 1)[i - 1]);
        assert(t[i - 1] == t.take(i + 1)[i - 1]);
    }
}

/// Convert camelCase to kebab-case.
pub fn hyphenate(value: &str) -> (r: String)
    ensures
        r@ == spec_hyphenate(value@),
{
    let chars = chars_of(value);
    let mut result = String::new();
    let mut i: usize = 0;
    while i < chars.len()
        invariant
            chars@ == value@,
            i <= chars@.len(),
            result@ == spec_hyphenate(value@.take(i as int)),
        decreases chars.len() - i,
    {
        let ch = chars[i];
        let upper = char_is_uppercase(ch);
        let prev_lower = if i > 0 { char_is_lowercase(chars[i - 1]) } else { false };
        if i > 0 && upper && prev_lower {
            push_char(&mut result, '-');
        }
        push_char(&mut result, to_ascii_lowercase(ch));
        proof {
            let t = value@.take(i + 1);
            assert(t.drop_last() =~= value@.take(i as int));
            assert(t.take(i + 1) =~= value@.take(i + 1));
            lemma_hyphen_piece_prefix(t, value@, i as int);
        }
        i += 1;
    }
    assert(value@.take(chars@.len() as int) =~= value@);
    result
}

/// A property name without `!important` (everything from its first occurrence on, or the
/// whole name when it starts with it), split at its last dot into property and unit:
/// `width.px` is `width` with unit `px`; a leading dot is no separator.
pub open spec fn spec_parse_property(name: Seq<char>) -> (Seq<char>, Option<Seq<char>>) {
    spec_split_unit(spec_without_important(name))
}

pub open spec fn spec_without_important(name: Seq<char>) -> Seq<char> {
    match spec_find(name, "!important"@) {
        Some(i) => if i > 0 { name.take(i) } else { Seq::empty() },
        None => name,
    }
}

pub open spec fn spec_split_unit(n: Seq<char>) -> (Seq<char>, Option<Seq<char>>) {
    match spec_rfind_char(n, '.') {
        Some(u) => if u > 0 { (n.take(u), Some(n.skip(u + 1))) } else { (n, None) },
        None => (n, None),
    }
}

fn without_important(name: &str) -> (r: String)
    ensures
        r@ == spec_without_important(name@),
{
    match find_str(name, "!important") {
        Some(i) => {
            proof {
                crate::text::lemma_find_bounds(name@, "!important"@);
            }
            if i > 0 {
                prefix_to(name, i)
            } else {
                String::new()
            }
        },
        None => name.to_owned(),
    }
}

fn split_unit(name: String) -> (r: (String, Option<String>))
    ensures
        r.0@ == spec_split_unit(name@).0,
        opt_string_view(r.1) == spec_split_unit(name@).1,
{
    let _len = name.as_str().unicode_len();
    match rfind_char(name.as_str(), '.') {
        Some(u) => if u > 0 {
            let suffix = suffix_from(name.as_str(), u + 1);
            let property = prefix_to(name.as_str(), u);
            (property, Some(suffix))
        } else {
            (name, None)
        },
        None => (name, None),
    }
}

/// Split a property name into property and unit.
pub fn parse_property(name: &str) -> (r: (String, Option<String>))
    ensures
        r.0@ == spec_parse_property(name@).0,
        opt_string_view(r.1) == spec_parse_property(name@).1,
{
    split_unit(without_important(name))
}

/// A binding name without a trailing `!important`.
pub open spec fn strip_bang_important(name: Seq<char>) -> Seq<char> {
    if seq_ends_with(name, "!important"@) {
        name.take(name.len() - 10)
    } else {
        name
    }
}

/// The style or class binding that a host property binding stands for: `style.x` (hyphenated
/// unless a custom property, then split into property and unit), `style!` (the whole style),
/// `class.x` and `class!x` (the class `x`); any other name is kept, without `!important`.
pub open spec fn spec_host_style_binding(b: SBinding) -> SBinding {
    let name = strip_bang_important(b.name);
    if seq_starts_with(name, "style."@) {
        let rest = name.skip(6);
        let h = if seq_starts_with(rest, "--"@) { rest } else { spec_hyphenate(rest) };
        let parsed = spec_parse_property(h);
        SBinding { binding_kind: BindingKind::StyleProperty, name: parsed.0, unit: parsed.1, ..b }
    } else if seq_starts_with(name, "style!"@) {
        SBinding { binding_kind: BindingKind::StyleProperty, name: "style"@, ..b }
    } else if seq_starts_with(name, "class."@) || seq_starts_with(name, "class!"@) {
        SBinding { binding_kind: BindingKind::ClassName, name: spec_parse_property(name.skip(6)).0, ..b }
    } else {
        SBinding { name, ..b }
    }
}

/// The update operation after host style parsing: property bindings are reinterpreted, all
/// other operations are kept.
pub open spec fn spec_parse_host_style_op(op: SUpdateOp) -> SUpdateOp {
    match op {
        SUpdateOp::Binding(b) => if b.binding_kind == BindingKind::Property {
            SUpdateOp::Binding(spec_host_style_binding(b))
        } else {
            op
        },
        _ => op,
    }
}

/// Hyphenation adds no character but `-` and ASCII-lowercased characters of its input: a
/// character other than `-` that is not in the input, and is no ASCII lowercase letter, is not
/// in the output.
pub proof fn lemma_hyphenate_adds_nothing_else(s: Seq<char>, c: char)
    requires
        c != '-',
        !('a' <= c && c <= 'z'),
        !s.contains(c),
    ensures
        !spec_hyphenate(s).contains(c),
    decreases s.len(),
{
    if s.len() > 0 {
        let t = s.drop_last();
        assert(!t.contains(c)) by {
            if t.contains(c) {
                let k = choose|k: int| 0 <= k < t.len() && t[k] == c;
                assert(s[k] == c);
            }
        }
        lemma_hyphenate_adds_nothing_else(t, c);
        let last = s[s.len() - 1];
        assert(last != c);
        assert(ascii_lower(last) != c) by {
            if 'A' <= last && last <= 'Z' {
                assert((last as u32) + 32 >= 97);
                assert((last as u32) + 32 <= 122);
            }
        }
        let piece = hyphen_piece(s, s.len() - 1);
        assert(!piece.contains(c));
        let h = spec_hyphenate(s);
        assert(h == spec_hyphenate(t) + piece);
        if h.contains(c) {
            let k = choose|k: int| 0 <= k < h.len() && h[k] == c;
            if k < spec_hyphenate(t).len() {
                assert(spec_hyphenate(t)[k] == c);
            } else {
                assert(piece[k - spec_hyphenate(t).len()] == c);
            }
        }
    }
}

proof fn lemma_no_dot_no_unit(h: Seq<char>)
    requires
        !h.contains('.'),
    ensures
        spec_rfind_char(h, '.') is None,
    decreases h.len(),
{
    if h.len() > 0 {
        assert(h[h.len() - 1] != '.');
        assert(!h.drop_last().contains('.')) by {
            if h.drop_last().contains('.') {
                let k = choose|k: int| 0 <= k < h.drop_last().len() && h.drop_last()[k] == '.';
                assert(h[k] == '.');
            }
        }
        lemma_no_dot_no_unit(h.drop_last());
    }
}

proof fn lemma_no_bang_no_important(h: Seq<char>)
    requires
        !h.contains('!'),
    ensures
        spec_find(h, "!important"@) is None,
        !seq_ends_with(h, "!important"@),
{
    reveal_strlit("!important");
    assert forall|i: int| !crate::text::occurs_at(h, "!important"@, i) by {
        if crate::text::occurs_at(h, "!important"@, i) {
            assert(h.subrange(i, i + 10)[0] == '!');
            assert(h[i] == '!');
        }
    }
    if seq_ends_with(h, "!important"@) {
        assert(h.subrange(h.len() - 10, h.len() as int)[0] == '!');
        assert(h[h.len() - 10] == '!');
    }
}

/// A host binding `[style.<name>]`, for a name that is no custom property (`--x`) and carries no
/// unit or `!important`, binds the style property whose name is the hyphenated (kebab-case)
/// form of `<name>`, without a unit: `style.backgroundColor` binds `background-color`.
pub proof fn lemma_host_style_property_is_hyphenated(b: SBinding, n: Seq<char>)
    requires
        b.binding_kind == BindingKind::Property,
        b.name == "style."@ + n,
        !seq_starts_with(n, "--"@),
        !n.contains('.'),
        !n.contains('!'),
    ensures
        spec_parse_host_style_op(SUpdateOp::Binding(b)) == SUpdateOp::Binding(
            SBinding { binding_kind: BindingKind::StyleProperty, name: spec_hyphenate(n), unit: None, ..b },
        ),
{
    reveal_strlit("style.");
    reveal_strlit("!important");
    let name = b.name;
    assert(!name.contains('!')) by {
        if name.contains('!') {
            let k = choose|k: int| 0 <= k < name.len() && name[k] == '!';
            if k >= 6 {
                assert(n[k - 6] == '!');
            } else {
                assert("style."@[k] == '!');
            }
        }
    }
    lemma_no_bang_no_important(name);
    assert(strip_bang_important(name) == name);
    assert(name.subrange(0, 6) =~= "style."@);
    assert(name.skip(6) =~= n);
    let h = spec_hyphenate(n);
    lemma_hyphenate_adds_nothing_else(n, '.');
    lemma_hyphenate_adds_nothing_else(n, '!');
    lemma_no_bang_no_important(h);
    assert(spec_without_important(h) == h);
    lemma_no_dot_no_unit(h);
    assert(spec_parse_property(h) == (h, None::<Seq<char>>));
}

/// The number of places in `s` where an uppercase letter follows a lowercase one.
pub open spec fn case_boundaries(s: Seq<char>) -> nat
    decreases s.len(),
{
    if s.len() <= 1 {
        0
    } else {
        case_boundaries(s.drop_last()) + if is_upper(s.last()) && is_lower(s[s.len() - 2]) {
            1nat
        } else {
            0nat
        }
    }
}

/// Hyphenation lowercases every ASCII capital and inserts one hyphen at each place where an
/// uppercase letter follows a lowercase one, and nothing else: the result holds no ASCII
/// capital, and is longer than the input by the number of such places.
pub proof fn lemma_hyphenate_shape(s: Seq<char>)
    ensures
        spec_hyphenate(s).len() == s.len() + case_boundaries(s),
        forall|k: int| 0 <= k < spec_hyphenate(s).len() ==> !('A' <= #[trigger] spec_hyphenate(s)[k] && spec_hyphenate(s)[k] <= 'Z'),
    decreases s.len(),
{
    if s.len() > 0 {
        let t = s.drop_last();
        lemma_hyphenate_shape(t);
        let piece = hyphen_piece(s, s.len() - 1);
        let last = s[s.len() - 1];
        assert(!('A' <= ascii_lower(last) && ascii_lower(last) <= 'Z')) by {
            if 'A' <= last && last <= 'Z' {
                assert((last as u32) + 32 >= 97);
            }
        }
        assert forall|k: int| 0 <= k < piece.len() implies !('A' <= #[trigger] piece[k] && piece[k] <= 'Z') by {}
        let h = spec_hyphenate(s);
        assert(h == spec_hyphenate(t) + piece);
        assert forall|k: int| 0 <= k < h.len() implies !('A' <= #[trigger] h[k] && h[k] <= 'Z') by {
            if k < spec_hyphenate(t).len() {
                assert(h[k] == spec_hyphenate(t)[k]);
            } else {
                assert(h[k] == piece[k - spec_hyphenate(t).len()]);
            }
        }
        if s.len() == 1 {
            assert(piece.len() == 1);
        } else {
            assert(t.last() == s[s.len() - 2]);
        }
    }
}

/// A host binding `[style.--name]` addresses a custom property, whose name is kept as written:
/// it is not hyphenated.
pub proof fn lemma_host_custom_property_is_kept(b: SBinding, n: Seq<char>)
    requires
        b.binding_kind == BindingKind::Property,
        b.name == "style."@ + n,
        seq_starts_with(n, "--"@),
        !n.contains('.'),
        !n.contains('!'),
    ensures
        spec_parse_host_style_op(SUpdateOp::Binding(b)) == SUpdateOp::Binding(
            SBinding { binding_kind: BindingKind::StyleProperty, name: n, unit: None, ..b },
        ),
{
    reveal_strlit("style.");
    reveal_strlit("!important");
    let name = b.name;
    assert(!name.contains('!')) by {
        if name.contains('!') {
            let k = choose|k: int| 0 <= k < name.len() && name[k] == '!';
            if k >= 6 {
                assert(n[k - 6] == '!');
            } else {
                assert("style."@[k] == '!');
            }
        }
    }
    lemma_no_bang_no_important(name);
    assert(name.subrange(0, 6) =~= "style."@);
    assert(name.skip(6) =~= n);
    lemma_no_bang_no_important(n);
    lemma_no_dot_no_unit(n);
}

fn parse_host_style_binding(b: BindingOp) -> (r: BindingOp)
    requires
        b.binding_kind == BindingKind::Property,
    ensures
        binding_view(r) == spec_host_style_binding(binding_view(b)),
{
    let mut binding = b;
    proof {
        reveal_strlit("!important");
        reveal_strlit("style.");
        reveal_strlit("class.");
        reveal_strlit("class!");
    }
    if ends_with(binding.name.as_str(), "!important") {
        let len = binding.name.as_str().unicode_len();
        binding.name = prefix_to(binding.name.as_str(), len - 10);
    }
    if starts_with(binding.name.as_str(), "style.") {
        binding.binding_kind = BindingKind::StyleProperty;
        binding.name = suffix_from(binding.name.as_str(), 6);
        if !is_css_custom_property(binding.name.as_str()) {
            binding.name = hyphenate(binding.name.as_str());
        }
        let (property, suffix) = parse_property(binding.name.as_str());
        binding.name = property;
        binding.unit = suffix;
    } else if starts_with(binding.name.as_str(), "style!") {
        binding.binding_kind = BindingKind::StyleProperty;
        binding.name = String::from_str("style");
    } else if starts_with(binding.name.as_str(), "class.") {
        binding.binding_kind = BindingKind::ClassName;
        let rest = suffix_from(binding.name.as_str(), 6);
        let (property, _) = parse_property(rest.as_str());
        binding.name = property;
    } else if starts_with(binding.name.as_str(), "class!") {
        binding.binding_kind = BindingKind::ClassName;
        let rest = suffix_from(binding.name.as_str(), 6);
        let (property, _) = parse_property(rest.as_str());
        binding.name = property;
    }
    binding
}

/// Reinterpret the host's property bindings whose names address styles or classes.
pub fn parse_host_style_properties(job: &mut HostBindingCompilationJob)
    ensures
        crate::ingest::same_but_update(*final(job), *old(job)),
        final(job).root.update@.len() == old(job).root.update@.len(),
        forall|i: int|
            0 <= i < old(job).root.update@.len() ==> #[trigger] update_op_view(final(job).root.update@[i])
                == spec_parse_host_style_op(update_op_view(old(job).root.update@[i])),
{
    let mut ops: Vec<UpdateOp> = Vec::new();
    std::mem::swap(&mut ops, &mut job.root.update);
    let ghost old_ops = ops@;
    let n = ops.len();
    let mut out: Vec<UpdateOp> = Vec::new();
    let mut i: usize = 0;
    while i < n
        invariant
            n == old_ops.len(),
            i <= n,
            ops@ == old_ops.skip(i as int),
            out@.len() == i,
            forall|j: int| 0 <= j < i ==> #[trigger] update_op_view(out@[j]) == spec_parse_host_style_op(update_op_view(old_ops[j])),
        decreases n - i,
    {
        let op = ops.remove(0);
        assert(op == old_ops[i as int]);
        let next = match op {
            UpdateOp::Binding(b) => {
                if b.binding_kind == BindingKind::Property {
                    UpdateOp::Binding(parse_host_style_binding(b))
                } else {
                    UpdateOp::Binding(b)
                }
            },
            other => other,
        };
        out.push(next);
        proof {
            assert(ops@ =~= old_ops.skip(i + 1));
        }
        i += 1;
    }
    job.root.update = out;
}

} // verus!
