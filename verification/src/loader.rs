//! Builtin modules: how they are named at build time, and how they are
//! installed into the namespace at start-up.
//!
//! A builtin is a guest source file in a directory tree. Its module name is
//! its path relative to the root of the tree, without the `.lua` extension,
//! with `.` between the components. Paths are `/`-separated text.

use vstd::prelude::*;
use crate::failure::{Failure, FailureModel};
use crate::namespace::{set_nested_field, set_nested_spec};
use crate::text::{
    chars_of, extend_str, is_suffix, join, join_strings, same_text, split, split_text, string_of,
    views,
};
use crate::value::{EntryModel, GuestModel, GuestValue, Table};

verus! {

/// Whether `c` is alphabetic in the sense of Unicode, as
/// `char::is_alphabetic` tells.
pub uninterp spec fn is_letter(c: char) -> bool;

/// Whether `c` is alphabetic or numeric in the sense of Unicode, as
/// `char::is_alphanumeric` tells.
pub uninterp spec fn is_letter_or_digit(c: char) -> bool;

/// `char::is_alphabetic`: whether the character has the Unicode property
/// `Alphabetic`.
#[verifier::external_body]
fn char_is_alphabetic(c: char) -> (r: bool)
    ensures
        r == is_letter(c),
{
    c.is_alphabetic()
}

/// `char::is_alphanumeric`: whether the character is alphabetic or numeric
/// in the sense of Unicode.
#[verifier::external_body]
fn char_is_alphanumeric(c: char) -> (r: bool)
    ensures
        r == is_letter_or_digit(c),
{
    c.is_alphanumeric()
}

/// A character that may stand in a segment of a module name.
pub open spec fn name_char(c: char) -> bool {
    is_letter_or_digit(c) || c == '-' || c == '_'
}

/// A segment of a module name starts with a letter and holds only
/// letters, digits, `-` and `_`.
pub open spec fn segment_ok(s: Seq<char>) -> bool {
    &&& s.len() > 0
    &&& is_letter(s[0])
    &&& forall|i: int| 0 <= i < s.len() ==> name_char(#[trigger] s[i])
}

/// A path piece that is an ordinary component: not empty, not `.`, not `..`.
pub open spec fn ordinary(piece: Seq<char>) -> bool {
    piece.len() > 0 && piece != seq!['.'] && piece != seq!['.', '.']
}

/// A component without the `.lua` extension, where it has one.
pub open spec fn without_extension(piece: Seq<char>) -> Seq<char> {
    if is_suffix(".lua"@, piece) {
        piece.subrange(0, piece.len() - 4)
    } else {
        piece
    }
}

/// The segments that path pieces give: the ordinary ones, each without
/// its extension.
pub open spec fn segments(pieces: Seq<Seq<char>>) -> Seq<Seq<char>>
    decreases pieces.len(),
{
    if pieces.len() == 0 {
        Seq::empty()
    } else if ordinary(pieces.last()) {
        segments(pieces.drop_last()).push(without_extension(pieces.last()))
    } else {
        segments(pieces.drop_last())
    }
}

/// The first segment that breaks the rules, if one does.
pub open spec fn first_bad(segs: Seq<Seq<char>>) -> Option<Seq<char>>
    decreases segs.len(),
{
    if segs.len() == 0 {
        None
    } else {
        match first_bad(segs.drop_last()) {
            Some(s) => Some(s),
            None => if segment_ok(segs.last()) {
                None
            } else {
                Some(segs.last())
            },
        }
    }
}

/// The module name for a path relative to the root of the tree, or the
/// first segment that is not allowed in a module name.
pub open spec fn module_name_of(path: Seq<char>) -> Result<Seq<char>, FailureModel> {
    let segs = segments(split(path, '/'));
    match first_bad(segs) {
        Some(s) => Err(FailureModel::ModuleName { segment: s }),
        None => Ok(join(segs, "."@)),
    }
}

/// The name under which a builtin is installed: the root's name, a dot,
/// and the module name.
pub open spec fn qualified_of(root_name: Seq<char>, module: Seq<char>) -> Seq<char> {
    root_name + "."@ + module
}

/// The pieces of `s` that `sep` ends: as splitting, but an empty last
/// piece is left out.
pub open spec fn terminated(s: Seq<char>, sep: char) -> Seq<Seq<char>> {
    let pieces = split(s, sep);
    if pieces.last().len() == 0 {
        pieces.drop_last()
    } else {
        pieces
    }
}

/// The module search path with the configuration directory put first:
/// `<dir>/?.lua`, then `<dir>/?/init.lua`, then what the path held before.
pub open spec fn package_path_of(config_dir: Seq<char>, current: Seq<char>, sep: Seq<char>) -> Seq<
    char,
> {
    join(
        seq![config_dir + sep + "?.lua"@, config_dir + sep + "?"@ + sep + "init.lua"@] + terminated(
            current,
            ';',
        ),
        ";"@,
    )
}

fn check_segment(s: &str) -> (r: bool)
    ensures
        r == segment_ok(s@),
{
    let chars = chars_of(s);
    if chars.len() == 0 {
        return false;
    }
    if !char_is_alphabetic(chars[0]) {
        return false;
    }
    let mut i: usize = 0;
    while i < chars.len()
        invariant
            i <= chars.len(),
            chars@ == s@,
            forall|j: int| 0 <= j < i ==> name_char(#[trigger] s@[j]),
        decreases chars.len() - i,
    {
        let c = chars[i];
        if !(char_is_alphanumeric(c) || c == '-' || c == '_') {
            assert(!name_char(s@[i as int]));
            return false;
        }
        i = i + 1;
    }
    true
}

fn strip_extension(piece: &str) -> (out: String)
    ensures
        out@ == without_extension(piece@),
{
    let chars = chars_of(piece);
    proof {
        reveal_strlit(".lua");
    }
    if crate::text::ends_with(piece, ".lua") {
        let mut out: Vec<char> = Vec::new();
        let mut i: usize = 0;
        while i + 4 < chars.len()
            invariant
                chars.len() >= 4,
                i + 4 <= chars.len(),
                out@ == chars@.subrange(0, i as int),
            decreases chars.len() - i,
        {
            out.push(chars[i]);
            i = i + 1;
        }
        string_of(&out)
    } else {
        piece.to_owned()
    }
}

fn is_ordinary(piece: &str) -> (r: bool)
    ensures
        r == ordinary(piece@),
{
    proof {
        reveal_strlit(".");
        reveal_strlit("..");
        assert("."@ =~= seq!['.']);
        assert(".."@ =~= seq!['.', '.']);
    }
    !piece.is_empty() && !same_text(piece, ".") && !same_text(piece, "..")
}

/// The module name for the path of a guest source file, relative to the
/// root of the tree of builtins.
pub fn get_module_name(path: &str) -> (r: Result<String, Failure>)
    ensures
        match r {
            Ok(name) => module_name_of(path@) == Ok::<Seq<char>, FailureModel>(name@),
            Err(e) => module_name_of(path@) == Err::<Seq<char>, FailureModel>(e@),
        },
{
    let pieces = split_text(path, '/');
    let mut segs: Vec<String> = Vec::new();
    let mut i: usize = 0;
    assert(views(pieces@).take(0) == Seq::<Seq<char>>::empty());
    while i < pieces.len()
        invariant
            i <= pieces@.len(),
            views(segs@) == segments(views(pieces@).take(i as int)),
        decreases pieces.len() - i,
    {
        let ghost upto = views(pieces@).take(i + 1);
        assert(upto.drop_last() == views(pieces@).take(i as int));
        assert(upto.last() == pieces@[i as int]@);
        if is_ordinary(pieces[i].as_str()) {
            let seg = strip_extension(pieces[i].as_str());
            let ghost before = segs@;
            segs.push(seg);
            assert(views(segs@) == views(before).push(seg@));
        }
        i = i + 1;
    }
    assert(views(pieces@).take(pieces.len() as int) == views(pieces@));
    assert(views(segs@) == segments(split(path@, '/')));
    let mut k: usize = 0;
    assert(views(segs@).take(0) == Seq::<Seq<char>>::empty());
    while k < segs.len()
        invariant
            k <= segs@.len(),
            views(segs@) == segments(split(path@, '/')),
            first_bad(views(segs@).take(k as int)) is None,
        decreases segs.len() - k,
    {
        let ghost upto = views(segs@).take(k + 1);
        assert(upto.drop_last() == views(segs@).take(k as int));
        assert(upto.last() == segs@[k as int]@);
        if !check_segment(segs[k].as_str()) {
            proof {
                lemma_first_bad_stays(views(segs@), (k + 1) as nat);
            }
            return Err(Failure::ModuleName { segment: segs[k].clone() });
        }
        k = k + 1;
    }
    assert(views(segs@).take(segs.len() as int) == views(segs@));
    Ok(join_strings(&segs, "."))
}

/// The first bad segment among the first `n` is the first bad segment of all.
pub proof fn lemma_first_bad_stays(segs: Seq<Seq<char>>, n: nat)
    requires
        n <= segs.len(),
        first_bad(segs.take(n as int)) is Some,
    ensures
        first_bad(segs) == first_bad(segs.take(n as int)),
    decreases segs.len() - n,
{
    if n < segs.len() {
        let more = segs.take(n as int + 1);
        assert(more.drop_last() == segs.take(n as int));
        lemma_first_bad_stays(segs, (n + 1) as nat);
    } else {
        assert(segs.take(n as int) == segs);
    }
}

/// The name under which a builtin is installed.
pub fn qualified(root_name: &str, module: &str) -> (out: String)
    ensures
        out@ == qualified_of(root_name@, module@),
{
    let mut acc = chars_of(root_name);
    extend_str(&mut acc, ".");
    extend_str(&mut acc, module);
    string_of(&acc)
}

/// The module search path with the configuration directory put first.
pub fn update_package_path(config_dir: &str, current: &str, sep: &str) -> (out: String)
    ensures
        out@ == package_path_of(config_dir@, current@, sep@),
{
    let mut first = chars_of(config_dir);
    extend_str(&mut first, sep);
    extend_str(&mut first, "?.lua");
    let mut second = chars_of(config_dir);
    extend_str(&mut second, sep);
    extend_str(&mut second, "?");
    extend_str(&mut second, sep);
    extend_str(&mut second, "init.lua");
    let mut paths: Vec<String> = Vec::new();
    paths.push(string_of(&first));
    paths.push(string_of(&second));
    let mut pieces = split_text(current, ';');
    proof {
        crate::text::lemma_split_nonempty(current@, ';');
    }
    let ghost all = views(pieces@);
    if pieces[pieces.len() - 1].as_str().is_empty() {
        pieces.pop();
        assert(views(pieces@) == all.drop_last());
    }
    assert(views(pieces@) == terminated(current@, ';'));
    let ghost head = views(paths@);
    let mut i: usize = 0;
    while i < pieces.len()
        invariant
            i <= pieces@.len(),
            views(paths@) == head + views(pieces@).take(i as int),
        decreases pieces.len() - i,
    {
        let ghost before = paths@;
        let piece = pieces[i].clone();
        paths.push(piece);
        assert(views(paths@) == views(before).push(piece@));
        assert(views(pieces@).take(i + 1) == views(pieces@).take(i as int).push(pieces@[i as int]@));
        i = i + 1;
    }
    assert(views(pieces@).take(pieces.len() as int) == views(pieces@));
    assert(head == seq![
        config_dir@ + sep@ + "?.lua"@,
        config_dir@ + sep@ + "?"@ + sep@ + "init.lua"@,
    ]);
    join_strings(&paths, ";")
}

/// A builtin module that has been loaded: its module name and the value
/// that running it gave.
#[derive(Debug, PartialEq, Eq)]
pub struct Builtin {
    pub name: String,
    pub value: GuestValue,
}

/// Mathematical view of a [`Builtin`].
pub struct BuiltinModel {
    pub name: Seq<char>,
    pub value: GuestModel,
}

impl View for Builtin {
    type V = BuiltinModel;

    open spec fn view(&self) -> BuiltinModel {
        BuiltinModel { name: self.name@, value: self.value@ }
    }
}

/// The views of a list of builtins.
pub open spec fn builtin_views(modules: Seq<Builtin>) -> Seq<BuiltinModel> {
    modules.map_values(|m: Builtin| m@)
}

/// The root after the first `n` builtins are installed in order, each
/// under the root's name and its own; and the failure that stopped the
/// installation, if one did. Nothing is installed after a failure.
pub open spec fn installed(
    root: Seq<EntryModel>,
    root_name: Seq<char>,
    modules: Seq<BuiltinModel>,
    n: nat,
) -> (Seq<EntryModel>, Option<FailureModel>)
    decreases n,
{
    if n == 0 || n > modules.len() {
        (root, None)
    } else {
        let (table, stopped) = installed(root, root_name, modules, (n - 1) as nat);
        if stopped is Some {
            (table, stopped)
        } else {
            match set_nested_spec(
                table,
                qualified_of(root_name, modules[n - 1].name),
                modules[n - 1].value,
            ) {
                Ok(after) => (after, None),
                Err(e) => (table, Some(e)),
            }
        }
    }
}

/// Once the installation has stopped it stays stopped.
pub proof fn lemma_installed_stops(
    root: Seq<EntryModel>,
    root_name: Seq<char>,
    modules: Seq<BuiltinModel>,
    n: nat,
    upto: nat,
)
    requires
        n <= upto <= modules.len(),
        installed(root, root_name, modules, n).1 is Some,
    ensures
        installed(root, root_name, modules, upto) == installed(root, root_name, modules, n),
    decreases upto - n,
{
    if n < upto {
        lemma_installed_stops(root, root_name, modules, n, (upto - 1) as nat);
    }
}

/// Installs the builtins in order, each at `<root_name>.<module name>`.
/// The first failure stops the installation and is returned.
pub fn install_builtins(root: &mut Table, root_name: &str, modules: Vec<Builtin>) -> (r: Result<
    (),
    Failure,
>)
    ensures
        final(root)@ == installed(
            old(root)@,
            root_name@,
            builtin_views(modules@),
            modules@.len(),
        ).0,
        match r {
            Ok(_) => installed(
                old(root)@,
                root_name@,
                builtin_views(modules@),
                modules@.len(),
            ).1 is None,
            Err(e) => installed(
                old(root)@,
                root_name@,
                builtin_views(modules@),
                modules@.len(),
            ).1 == Some(e@),
        },
{
    let ghost models = builtin_views(modules@);
    let ghost start = root@;
    let ghost total = modules@.len();
    for module in it: modules
        invariant
            it.seq().len() == total,
            models == builtin_views(it.seq()),
            models == builtin_views(modules@),
            total == modules@.len(),
            start == old(root)@,
            installed(start, root_name@, models, it.index() as nat) == (
                root@,
                None::<FailureModel>,
            ),
    {
        let ghost at = it.index();
        assert(models[at] == module@);
        let name = qualified(root_name, module.name.as_str());
        match set_nested_field(root, name.as_str(), module.value) {
            Ok(_) => {},
            Err(e) => {
                proof {
                    lemma_installed_stops(start, root_name@, models, (at + 1) as nat, total);
                }
                return Err(e);
            },
        }
    }
    Ok(())
}

} // verus!
