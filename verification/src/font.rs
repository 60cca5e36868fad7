//! Which fonts the user interface is drawn with.
use crate::text::{opt_view, views};
use vstd::prelude::*;

verus! {

/// Fonts by name, the later of two with one name counting, and for each family the names of its
/// fonts, the preferred one first.
#[derive(Debug, PartialEq, Eq)]
pub struct Fonts {
    pub data: Vec<(String, Vec<u8>)>,
    pub proportional: Vec<String>,
    pub monospace: Vec<String>,
}

pub struct FontsView {
    pub data: Seq<(Seq<char>, Seq<u8>)>,
    pub proportional: Seq<Seq<char>>,
    pub monospace: Seq<Seq<char>>,
}

pub open spec fn data_views(v: Seq<(String, Vec<u8>)>) -> Seq<(Seq<char>, Seq<u8>)> {
    v.map_values(|d: (String, Vec<u8>)| (d.0@, d.1@))
}

impl View for Fonts {
    type V = FontsView;

    open spec fn view(&self) -> FontsView {
        FontsView {
            data: data_views(self.data@),
            proportional: views(self.proportional@),
            monospace: views(self.monospace@),
        }
    }
}

pub open spec fn bytes_view(font: Option<Vec<u8>>) -> Option<Seq<u8>> {
    match font {
        Some(b) => Some(b@),
        None => None,
    }
}

/// The font with this name, where there are bytes for it.
pub open spec fn entry(name: Seq<char>, bytes: Option<Seq<u8>>) -> Seq<(Seq<char>, Seq<u8>)> {
    match bytes {
        Some(b) => seq![(name, b)],
        None => Seq::empty(),
    }
}

/// The name of a font, where there are bytes for it.
pub open spec fn listed(name: Seq<char>, bytes: Option<Seq<u8>>) -> Seq<Seq<char>> {
    match bytes {
        Some(_) => seq![name],
        None => Seq::empty(),
    }
}

/// Inter before the other proportional fonts, the font for code before the other monospaced ones,
/// and a Chinese, Japanese and Korean one behind both.
pub open spec fn installed(
    f: FontsView,
    inter: Seq<u8>,
    mono: Option<Seq<u8>>,
    cjk: Option<Seq<u8>>,
) -> FontsView {
    FontsView {
        data: f.data + entry("inter"@, Some(inter)) + entry("mono"@, mono) + entry("cjk"@, cjk),
        proportional: seq!["inter"@] + f.proportional + listed("cjk"@, cjk),
        monospace: listed("mono"@, mono) + f.monospace + listed("cjk"@, cjk),
    }
}

/// The file of the font for code.
pub fn mono_path() -> (r: String)
    ensures
        r@ == "C:\\Windows\\Fonts\\consola.ttf"@,
{
    "C:\\Windows\\Fonts\\consola.ttf".to_owned()
}

/// The file to try for the fallback font after `tried` others could not be read.
pub open spec fn cjk_candidate(tried: usize) -> Option<Seq<char>> {
    if tried == 0 {
        Some("C:\\Windows\\Fonts\\msyh.ttc"@)
    } else if tried == 1 {
        Some("C:\\Windows\\Fonts\\Deng.ttf"@)
    } else if tried == 2 {
        Some("C:\\Windows\\Fonts\\simhei.ttf"@)
    } else {
        None
    }
}

/// The file to try for the fallback font after `tried` others could not be read.
pub fn cjk_path(tried: usize) -> (r: Option<String>)
    ensures
        opt_view(r) == cjk_candidate(tried),
{
    if tried == 0 {
        Some("C:\\Windows\\Fonts\\msyh.ttc".to_owned())
    } else if tried == 1 {
        Some("C:\\Windows\\Fonts\\Deng.ttf".to_owned())
    } else if tried == 2 {
        Some("C:\\Windows\\Fonts\\simhei.ttf".to_owned())
    } else {
        None
    }
}

fn add_name(v: &mut Vec<String>, at: usize, name: &str)
    requires
        at <= old(v).len(),
    ensures
        views(final(v)@) == views(old(v)@).insert(at as int, name@),
{
    let ghost was = views(v@);
    v.insert(at, name.to_owned());
    assert(views(v@) =~= was.insert(at as int, name@));
}

fn add_data(v: &mut Vec<(String, Vec<u8>)>, name: &str, bytes: Vec<u8>)
    ensures
        data_views(final(v)@) == data_views(old(v)@).push((name@, bytes@)),
{
    let ghost was = data_views(v@);
    let ghost b = bytes@;
    v.push((name.to_owned(), bytes));
    assert(data_views(v@) =~= was.push((name@, b)));
}

/// Inter as the font of the user interface, over the fonts there are, with a font for code and a
/// fallback where their files could be read.
pub fn install(fonts: Fonts, inter: Vec<u8>, mono: Option<Vec<u8>>, cjk: Option<Vec<u8>>) -> (r:
    Fonts)
    ensures
        r@ == installed(fonts@, inter@, bytes_view(mono), bytes_view(cjk)),
{
    let ghost wanted = installed(fonts@, inter@, bytes_view(mono), bytes_view(cjk));
    let mut fonts = fonts;
    add_data(&mut fonts.data, "inter", inter);
    add_name(&mut fonts.proportional, 0, "inter");
    if let Some(b) = mono {
        add_data(&mut fonts.data, "mono", b);
        add_name(&mut fonts.monospace, 0, "mono");
    }
    if let Some(b) = cjk {
        add_data(&mut fonts.data, "cjk", b);
        let n: usize = fonts.proportional.len();
        add_name(&mut fonts.proportional, n, "cjk");
        let m: usize = fonts.monospace.len();
        add_name(&mut fonts.monospace, m, "cjk");
    }
    assert(fonts@.data =~= wanted.data);
    assert(fonts@.proportional =~= wanted.proportional);
    assert(fonts@.monospace =~= wanted.monospace);
    fonts
}

/// Fonts are only added: the ones there keep their bytes and their order. Inter comes before the
/// other proportional fonts, the font for code before the other monospaced ones, and the fallback
/// behind all of both; a font without a file is left out.
pub proof fn law_fonts_are_only_added(
    f: FontsView,
    inter: Seq<u8>,
    mono: Option<Seq<u8>>,
    cjk: Option<Seq<u8>>,
)
    ensures
        ({
            let g = installed(f, inter, mono, cjk);
            let m: int = if mono is Some {
                1
            } else {
                0
            };
            let k: int = if cjk is Some {
                1
            } else {
                0
            };
            let n = f.proportional.len() as int;
            let o = f.monospace.len() as int;
            let d = f.data.len() as int;
            &&& g.proportional.len() == 1 + n + k
            &&& g.proportional[0] == "inter"@
            &&& g.proportional.subrange(1, 1 + n) == f.proportional
            &&& cjk is Some ==> g.proportional.last() == "cjk"@
            &&& g.monospace.len() == m + o + k
            &&& mono is Some ==> g.monospace[0] == "mono"@
            &&& g.monospace.subrange(m, m + o) == f.monospace
            &&& cjk is Some ==> g.monospace.last() == "cjk"@
            &&& g.data.len() == d + 1 + m + k
            &&& g.data.take(d) == f.data
            &&& g.data[d] == ("inter"@, inter)
            &&& mono matches Some(b) ==> g.data[d + 1] == ("mono"@, b)
            &&& cjk matches Some(b) ==> g.data.last() == ("cjk"@, b)
        }),
{
    let g = installed(f, inter, mono, cjk);
    let m: int = if mono is Some {
        1
    } else {
        0
    };
    assert(g.proportional.subrange(1, 1int + f.proportional.len()) =~= f.proportional);
    assert(g.monospace.subrange(m, m + f.monospace.len()) =~= f.monospace);
    assert(g.data.take(f.data.len() as int) =~= f.data);
}

} // verus!
