//! Text-level pieces of the SVG writer: escaping user text for XML and
//! unwrapping a rendered document so it can be nested in another.
use vstd::prelude::*;
use crate::text::{chars_of, has_prefix, occurs_at, occurs_at_exec, starts_with, trim_start, trimmed_start};

verus! {

/// The XML escape of one character.
pub open spec fn xml_escape_char(c: char) -> Seq<char> {
    if c == '&' {
        "&amp;"@
    } else if c == '<' {
        "&lt;"@
    } else if c == '>' {
        "&gt;"@
    } else if c == '"' {
        "&quot;"@
    } else if c == '\'' {
        "&apos;"@
    } else {
        seq![c]
    }
}

/// `s` with each of the five XML-special characters replaced by its
/// entity.
pub open spec fn xml_escaped(s: Seq<char>) -> Seq<char>
    decreases s.len(),
{
    if s.len() == 0 {
        Seq::empty()
    } else {
        xml_escaped(s.drop_last()) + xml_escape_char(s.last())
    }
}

/// One of the five characters that XML markup gives a meaning to.
pub open spec fn is_xml_special(c: char) -> bool {
    c == '&' || c == '<' || c == '>' || c == '"' || c == '\''
}

/// Escape the XML-special five so arbitrary user text (series names, axis
/// labels, titles) can neither break the document nor inject markup.
pub fn escape_xml(s: &str) -> (res: String)
    ensures
        res@ == xml_escaped(s@),
{
    let v = chars_of(s);
    let mut out = String::new();
    let mut i: usize = 0;
    assert(v@.take(0) =~= Seq::<char>::empty());
    while i < v.len()
        invariant
            i <= v@.len(),
            v@ == s@,
            out@ == xml_escaped(v@.take(i as int)),
        decreases v@.len() - i,
    {
        let c = v[i];
        proof {
            reveal_strlit("&amp;");
            reveal_strlit("&lt;");
            reveal_strlit("&gt;");
            reveal_strlit("&quot;");
            reveal_strlit("&apos;");
        }
        if c == '&' {
            out.append("&amp;");
        } else if c == '<' {
            out.append("&lt;");
        } else if c == '>' {
            out.append("&gt;");
        } else if c == '"' {
            out.append("&quot;");
        } else if c == '\'' {
            out.append("&apos;");
        } else {
            crate::text::push_char(&mut out, c);
        }
        assert(v@.take(i + 1).drop_last() =~= v@.take(i as int));
        i = i + 1;
    }
    assert(v@.take(v@.len() as int) =~= v@);
    out
}

/// Escaping distributes over concatenation.
pub proof fn lemma_xml_escaped_concat(a: Seq<char>, b: Seq<char>)
    ensures
        xml_escaped(a + b) == xml_escaped(a) + xml_escaped(b),
    decreases b.len(),
{
    if b.len() == 0 {
        assert(a + b =~= a);
        assert(xml_escaped(b) =~= Seq::<char>::empty());
        assert(xml_escaped(a) + xml_escaped(b) =~= xml_escaped(a));
    } else {
        assert((a + b).drop_last() =~= a + b.drop_last());
        lemma_xml_escaped_concat(a, b.drop_last());
        assert(xml_escaped(a + b) =~= xml_escaped(a) + xml_escaped(b));
    }
}

/// Escaped text holds no markup: of the special characters only `&`
/// remains, and each `&` opens one of the five entities.
pub proof fn escaped_text_has_no_markup(s: Seq<char>)
    ensures
        forall|i: int| 0 <= i < xml_escaped(s).len() ==> {
            let c = #[trigger] xml_escaped(s)[i];
            &&& c != '<'
            &&& c != '>'
            &&& c != '"'
            &&& c != '\''
        },
        forall|i: int| 0 <= i < xml_escaped(s).len() && #[trigger] xml_escaped(s)[i] == '&' ==> {
            let rest = xml_escaped(s).skip(i);
            ||| has_prefix(rest, "&amp;"@)
            ||| has_prefix(rest, "&lt;"@)
            ||| has_prefix(rest, "&gt;"@)
            ||| has_prefix(rest, "&quot;"@)
            ||| has_prefix(rest, "&apos;"@)
        },
    decreases s.len(),
{
    reveal_strlit("&amp;");
    reveal_strlit("&lt;");
    reveal_strlit("&gt;");
    reveal_strlit("&quot;");
    reveal_strlit("&apos;");
    if s.len() > 0 {
        escaped_text_has_no_markup(s.drop_last());
        let a = xml_escaped(s.drop_last());
        let e = xml_escape_char(s.last());
        assert(xml_escaped(s) == a + e);
        assert forall|i: int| 0 <= i < xml_escaped(s).len() && #[trigger] xml_escaped(s)[i] == '&' implies {
            let rest = xml_escaped(s).skip(i);
            ||| has_prefix(rest, "&amp;"@)
            ||| has_prefix(rest, "&lt;"@)
            ||| has_prefix(rest, "&gt;"@)
            ||| has_prefix(rest, "&quot;"@)
            ||| has_prefix(rest, "&apos;"@)
        } by {
            let rest = xml_escaped(s).skip(i);
            if i < a.len() {
                assert(a[i] == '&');
                let ra = a.skip(i);
                assert(rest =~= ra + e);
                if has_prefix(ra, "&amp;"@) {
                    assert(rest.subrange(0, 5) =~= ra.subrange(0, 5));
                } else if has_prefix(ra, "&lt;"@) {
                    assert(rest.subrange(0, 4) =~= ra.subrange(0, 4));
                } else if has_prefix(ra, "&gt;"@) {
                    assert(rest.subrange(0, 4) =~= ra.subrange(0, 4));
                } else if has_prefix(ra, "&quot;"@) {
                    assert(rest.subrange(0, 6) =~= ra.subrange(0, 6));
                } else {
                    assert(rest.subrange(0, 6) =~= ra.subrange(0, 6));
                }
            } else {
                let k = i - a.len();
                assert(rest =~= e.skip(k));
                let c = s.last();
                assert(e[k] == '&');
                if c == '&' {
                    assert(k == 0);
                    assert(rest.subrange(0, 5) =~= "&amp;"@);
                } else if c == '<' {
                    assert(k == 0);
                    assert(rest.subrange(0, 4) =~= "&lt;"@);
                } else if c == '>' {
                    assert(k == 0);
                    assert(rest.subrange(0, 4) =~= "&gt;"@);
                } else if c == '"' {
                    assert(k == 0);
                    assert(rest.subrange(0, 6) =~= "&quot;"@);
                } else if c == '\'' {
                    assert(k == 0);
                    assert(rest.subrange(0, 6) =~= "&apos;"@);
                }
            }
        }
    }
}

/// Index of the first `c` in `s` at or after `i`.
pub open spec fn find_char_from(s: Seq<char>, c: char, i: int) -> Option<int>
    decreases s.len() - i,
{
    if i < 0 || i >= s.len() {
        None
    } else if s[i] == c {
        Some(i)
    } else {
        find_char_from(s, c, i + 1)
    }
}

/// Index of the last occurrence of `p` in `s` that starts at or before `i`.
pub open spec fn rfind_from(s: Seq<char>, p: Seq<char>, i: int) -> Option<int>
    decreases i + 1,
{
    if i < 0 {
        None
    } else if occurs_at(s, p, i) {
        Some(i)
    } else {
        rfind_from(s, p, i - 1)
    }
}

/// Index of the last occurrence of `p` in `s`.
pub open spec fn rfind(s: Seq<char>, p: Seq<char>) -> Option<int> {
    rfind_from(s, p, s.len() - p.len())
}

/// The inside of an SVG document: what follows the first `>` when the
/// text before it starts (after white space) with `<svg`, cut before the
/// last `</svg>` if there is one; the text unchanged when it does not
/// open with an `<svg` tag.
pub open spec fn svg_inner(s: Seq<char>) -> Seq<char> {
    match find_char_from(s, '>', 0) {
        None => s,
        Some(e) => if !has_prefix(trimmed_start(s.take(e)), "<svg"@) {
            s
        } else {
            let rest = s.skip(e + 1);
            match rfind(rest, "</svg>"@) {
                None => rest,
                Some(c) => rest.take(c),
            }
        },
    }
}

fn find_gt(v: &Vec<char>) -> (res: Option<usize>)
    ensures
        res matches Some(i) ==> find_char_from(v@, '>', 0) == Some(i as int) && i < v@.len(),
        res is None ==> find_char_from(v@, '>', 0) is None,
{
    let mut i: usize = 0;
    while i < v.len()
        invariant
            i <= v@.len(),
            find_char_from(v@, '>', 0) == find_char_from(v@, '>', i as int),
        decreases v@.len() - i,
    {
        if v[i] == '>' {
            return Some(i);
        }
        i = i + 1;
    }
    None
}

fn rfind_exec(v: &Vec<char>, p: &Vec<char>) -> (res: Option<usize>)
    ensures
        res matches Some(i) ==> rfind(v@, p@) == Some(i as int) && i + p@.len() <= v@.len(),
        res is None ==> rfind(v@, p@) is None,
{
    if p.len() > v.len() {
        return None;
    }
    let mut i: usize = v.len() - p.len();
    loop
        invariant
            i + p@.len() <= v@.len(),
            rfind(v@, p@) == rfind_from(v@, p@, i as int),
        decreases i,
    {
        if occurs_at_exec(v, p, i) {
            return Some(i);
        }
        if i == 0 {
            assert(rfind_from(v@, p@, -1) is None);
            return None;
        }
        i = i - 1;
    }
}

/// Strip the opening `<svg …>` tag and the closing `</svg>` so the inner
/// content can be nested inside a parent SVG document; the input is
/// returned unchanged when it does not open with an `<svg` tag.
pub fn strip_svg_wrapper(s: &str) -> (res: String)
    ensures
        res@ == svg_inner(s@),
{
    let v = chars_of(s);
    let open_end = match find_gt(&v) {
        None => return String::from_str(s),
        Some(e) => e,
    };
    let head = trim_start(s.substring_char(0, open_end));
    assert(s@.subrange(0, open_end as int) =~= s@.take(open_end as int));
    if !starts_with(head.as_str(), "<svg") {
        return String::from_str(s);
    }
    let n = v.len();
    let rest = s.substring_char(open_end + 1, n);
    assert(rest@ =~= s@.skip(open_end + 1));
    let rest_chars = chars_of(rest);
    let close = chars_of("</svg>");
    proof {
        reveal_strlit("</svg>");
    }
    match rfind_exec(&rest_chars, &close) {
        None => String::from_str(rest),
        Some(c) => {
            assert(rest@.subrange(0, c as int) =~= rest@.take(c as int));
            String::from_str(rest.substring_char(0, c))
        },
    }
}

/// A document wrapped in an `<svg …>` tag whose attributes hold no `>`
/// comes back out as its inside.
pub proof fn strip_undoes_wrap(attrs: Seq<char>, inner: Seq<char>)
    requires
        forall|i: int| 0 <= i < attrs.len() ==> attrs[i] != '>',
    ensures
        svg_inner("<svg"@ + attrs + ">"@ + inner + "</svg>"@) == inner,
{
    reveal_strlit("<svg");
    reveal_strlit(">");
    reveal_strlit("</svg>");
    let head = "<svg"@ + attrs;
    let s = head + ">"@ + inner + "</svg>"@;
    let e = head.len() as int;
    assert forall|k: int| 0 <= k <= e implies find_char_from(s, '>', k) == Some(e) by {
        lemma_find_gt(s, e, k);
    }
    assert(s.take(e) =~= head);
    assert(leading_ws_zero(head)) by {
        assert(head[0] == '<');
    }
    assert(trimmed_start(head) =~= head);
    assert(head.subrange(0, 4) =~= "<svg"@);
    let rest = s.skip(e + 1);
    assert(rest =~= inner + "</svg>"@);
    let p = "</svg>"@;
    assert(rest.subrange(inner.len() as int, inner.len() as int + 6) =~= p);
    assert(rfind(rest, p) == Some(inner.len() as int));
    assert(rest.take(inner.len() as int) =~= inner);
}

spec fn leading_ws_zero(s: Seq<char>) -> bool {
    crate::text::leading_ws(s) == 0
}

proof fn lemma_find_gt(s: Seq<char>, e: int, k: int)
    requires
        0 <= k <= e < s.len(),
        s[e] == '>',
        forall|j: int| 0 <= j < e ==> s[j] != '>',
    ensures
        find_char_from(s, '>', k) == Some(e),
    decreases e - k,
{
    if k < e {
        lemma_find_gt(s, e, k + 1);
    }
}

/// Settings passed from the dashboard into every series builder.
#[derive(Clone, Debug)]
pub struct ExportConfig {
    pub title: Option<String>,
    pub x_axis_label: Option<String>,
    pub y_axis_label: Option<String>,
    /// Hint only: the writer draws a linear axis.
    pub log_scale_x: bool,
}

impl Default for ExportConfig {
    fn default() -> (res: Self)
        ensures
            res.title is None,
            res.x_axis_label is None,
            res.y_axis_label is None,
            !res.log_scale_x,
    {
        ExportConfig { title: None, x_axis_label: None, y_axis_label: None, log_scale_x: false }
    }
}


/// Opening of the parent document that holds the two comparison panes.
pub open spec fn pair_header(width: Seq<char>, height: Seq<char>) -> Seq<char> {
    "<svg xmlns=\"http://www.w3.org/2000/svg\" width=\""@ + width + "\" height=\""@ + height
        + "\" viewBox=\"0 0 "@ + width + " "@ + height + "\" font-family=\"sans-serif\">\n"@
        + "  <rect x=\"0\" y=\"0\" width=\""@ + width + "\" height=\""@ + height
        + "\" fill=\"white\"/>\n"@
}

/// One pane nested in a group shifted right by `offset_x`.
pub open spec fn pane_group(offset_x: Seq<char>, pane_svg: Seq<char>) -> Seq<char> {
    "  <g transform=\"translate("@ + offset_x + ",0)\">\n"@ + svg_inner(pane_svg) + "\n  </g>\n"@
}

/// The side-by-side document: pane A at the origin, pane B shifted right
/// by `offset_x`, on a white background of the given size.
pub open spec fn comparison_pair_document(
    pane_a_svg: Seq<char>,
    pane_b_svg: Seq<char>,
    width: Seq<char>,
    height: Seq<char>,
    offset_x: Seq<char>,
) -> Seq<char> {
    pair_header(width, height) + pane_group("0"@, pane_a_svg) + pane_group(offset_x, pane_b_svg)
        + "</svg>\n"@
}

fn push_pane_group(out: &mut String, offset_x: &str, pane_svg: &str)
    ensures
        final(out)@ == old(out)@ + pane_group(offset_x@, pane_svg@),
{
    let inner = strip_svg_wrapper(pane_svg);
    out.append("  <g transform=\"translate(");
    out.append(offset_x);
    out.append(",0)\">\n");
    out.append(inner.as_str());
    out.append("\n  </g>\n");
    assert(out@ =~= old(out)@ + pane_group(offset_x@, pane_svg@));
}

/// Lay two rendered panes side by side in one document, each without its
/// own `<svg …>` wrapper. The panes are rendered, and the dimensions
/// formatted, by the caller: `width` is the sum of the pane widths,
/// `height` the larger pane height and `offset_x` the width of pane A.
pub fn render_comparison_pair(
    pane_a_svg: &str,
    pane_b_svg: &str,
    width: &str,
    height: &str,
    offset_x: &str,
) -> (res: String)
    ensures
        res@ == comparison_pair_document(pane_a_svg@, pane_b_svg@, width@, height@, offset_x@),
{
    let mut out = String::new();
    out.append("<svg xmlns=\"http://www.w3.org/2000/svg\" width=\"");
    out.append(width);
    out.append("\" height=\"");
    out.append(height);
    out.append("\" viewBox=\"0 0 ");
    out.append(width);
    out.append(" ");
    out.append(height);
    out.append("\" font-family=\"sans-serif\">\n");
    out.append("  <rect x=\"0\" y=\"0\" width=\"");
    out.append(width);
    out.append("\" height=\"");
    out.append(height);
    out.append("\" fill=\"white\"/>\n");
    assert(out@ =~= pair_header(width@, height@));
    push_pane_group(&mut out, "0", pane_a_svg);
    push_pane_group(&mut out, offset_x, pane_b_svg);
    out.append("</svg>\n");
    assert(out@ =~= comparison_pair_document(pane_a_svg@, pane_b_svg@, width@, height@, offset_x@));
    out
}

} // verus!
