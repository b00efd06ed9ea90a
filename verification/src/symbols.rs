//! Finding the line-editing library in a process and the functions and variables in it.
//!
//! Addresses are plain numbers here, and zero stands for an address that is missing.

use crate::memo::{calls, kept_next, law_first_value_is_kept, Memo};
use vstd::prelude::*;
use vstd::utf8::encode_utf8;

verus! {

/// Whether `needle` stands in `hay` at `i`.
pub open spec fn stands_at(hay: Seq<u8>, needle: Seq<u8>, i: int) -> bool {
    &&& 0 <= i
    &&& i + needle.len() <= hay.len()
    &&& hay.subrange(i, i + needle.len()) == needle
}

/// Whether `needle` stands anywhere in `hay`.
pub open spec fn contains_bytes(hay: Seq<u8>, needle: Seq<u8>) -> bool {
    exists|i: int| stands_at(hay, needle, i)
}

/// Whether the file name of a loaded object is that of GNU readline or of libedit.
pub open spec fn names_line_library(name: Seq<u8>) -> bool {
    ||| contains_bytes(name, encode_utf8("libreadline.so"@))
    ||| contains_bytes(name, encode_utf8("libedit.so"@))
}

fn matches_at(hay: &[u8], needle: &[u8], i: usize) -> (found: bool)
    requires
        i + needle@.len() <= hay@.len(),
    ensures
        found == stands_at(hay@, needle@, i as int),
{
    let total: usize = hay.len();
    let mut j: usize = 0;
    while j < needle.len()
        invariant
            total == hay@.len(),
            i + needle@.len() <= hay@.len(),
            j <= needle@.len(),
            forall|k: int| 0 <= k < j ==> hay@[i + k] == #[trigger] needle@[k],
        decreases needle@.len() - j,
    {
        if hay[i + j] != needle[j] {
            assert(hay@.subrange(i as int, i + needle@.len())[j as int] != needle@[j as int]);
            return false;
        }
        j += 1;
    }
    assert(hay@.subrange(i as int, i + needle@.len()) =~= needle@);
    true
}

fn find_bytes(hay: &[u8], needle: &[u8]) -> (found: bool)
    ensures
        found == contains_bytes(hay@, needle@),
{
    if needle.len() > hay.len() {
        return false;
    }
    let last: usize = hay.len() - needle.len();
    let mut i: usize = 0;
    loop
        invariant
            last + needle@.len() == hay@.len(),
            i <= last,
            forall|k: int| 0 <= k < i ==> !stands_at(hay@, needle@, k),
        decreases last - i,
    {
        if matches_at(hay, needle, i) {
            return true;
        }
        if i == last {
            return false;
        }
        i += 1;
    }
}

/// Decides whether the loaded object with the file name `name` is a line-editing library.
/// Both names that are looked for are ASCII, so `name` need not be valid UTF-8.
pub fn is_line_library(name: &[u8]) -> (found: bool)
    ensures
        found == names_line_library(name@),
{
    find_bytes(name, "libreadline.so".as_bytes()) || find_bytes(name, "libedit.so".as_bytes())
}

/// A loaded object: its file name, and the handle that opening it gives, zero if it cannot be
/// opened.
pub struct LoadedObject {
    pub name: Seq<u8>,
    pub handle: usize,
}

/// Whether `object` is a line-editing library that can be opened.
pub open spec fn is_hit(object: LoadedObject) -> bool {
    names_line_library(object.name) && object.handle != 0
}

/// The handle found when, with `found` so far, opening a library gave `handle`, and whether the
/// search is over.
pub open spec fn opened_next(found: usize, handle: usize) -> (usize, bool) {
    if handle != 0 {
        (handle, true)
    } else {
        (found, false)
    }
}

/// The search for a line-editing library among the loaded objects, in the order in which the
/// process lists them.
pub struct LibraryScan {
    handle: usize,
}

impl View for LibraryScan {
    type V = usize;

    /// The handle found so far, or zero.
    closed spec fn view(&self) -> usize {
        self.handle
    }
}

impl LibraryScan {
    /// A search that has seen no object.
    pub fn new() -> (scan: Self)
        ensures
            scan@ == 0,
    {
        LibraryScan { handle: 0 }
    }

    /// Takes the handle that opening a line-editing library gave. Returns whether the search
    /// is over: it goes on after a library that could not be opened.
    pub fn opened(&mut self, handle: usize) -> (over: bool)
        ensures
            (final(self)@, over) == opened_next(old(self)@, handle),
    {
        if handle != 0 {
            self.handle = handle;
            true
        } else {
            false
        }
    }

    /// Ends the search. Its result, zero included, is kept for the rest of the process, unless
    /// that of an earlier search is kept already: then the earlier one is the result. Where
    /// `kept` knows a handle, there is no need to search.
    pub fn line_lib(&self, kept: &mut Memo<usize>) -> (handle: usize)
        ensures
            final(kept)@ == kept_next(old(kept)@, self@),
            final(kept)@ == Some(handle),
    {
        kept.keep(self.handle)
    }
}

/// The handle that a search over `objects` ends with, with `found` so far: it opens those that
/// `is_line_library` accepts, and stops where `LibraryScan::opened` says so.
pub open spec fn scan(objects: Seq<LoadedObject>, found: usize) -> usize
    decreases objects.len(),
{
    if objects.len() == 0 {
        found
    } else if !names_line_library(objects[0].name) {
        scan(objects.drop_first(), found)
    } else {
        let (now, over) = opened_next(found, objects[0].handle);
        if over {
            now
        } else {
            scan(objects.drop_first(), now)
        }
    }
}

/// A file name is that of a line-editing library exactly where it is written as some bytes, then
/// `libreadline.so` or `libedit.so`, then some bytes, whatever those bytes are.
pub proof fn law_line_library_is_known_by_its_name(name: Seq<u8>, before: Seq<u8>, behind: Seq<u8>)
    ensures
        names_line_library(before + encode_utf8("libreadline.so"@) + behind),
        names_line_library(before + encode_utf8("libedit.so"@) + behind),
        names_line_library(name) ==> exists|a: Seq<u8>, b: Seq<u8>|
            name == a + encode_utf8("libreadline.so"@) + b || name == #[trigger] (a + encode_utf8(
                "libedit.so"@,
            ) + b),
{
    let readline = encode_utf8("libreadline.so"@);
    let edit = encode_utf8("libedit.so"@);
    lemma_stands_between(before, readline, behind);
    lemma_stands_between(before, edit, behind);
    if names_line_library(name) {
        let needle = if contains_bytes(name, readline) {
            readline
        } else {
            edit
        };
        let i = choose|i: int| stands_at(name, needle, i);
        let a = name.take(i);
        let b = name.skip(i + needle.len());
        assert(name =~= a + needle + b);
        assert(name == a + readline + b || name == a + edit + b);
    }
}

proof fn lemma_stands_between(before: Seq<u8>, needle: Seq<u8>, behind: Seq<u8>)
    ensures
        contains_bytes(before + needle + behind, needle),
{
    let whole = before + needle + behind;
    let i = before.len() as int;
    assert(whole.subrange(i, i + needle.len()) =~= needle);
    assert(stands_at(whole, needle, i));
}

/// A handle other than zero is the result and ends the search. With zero the search goes on
/// with what was found.
pub proof fn law_search_ends_with_a_handle(found: usize, handle: usize)
    ensures
        handle != 0 ==> opened_next(found, handle) == (handle, true),
        opened_next(found, 0) == (found, false),
{
}

/// An object that is no line-editing library, or that cannot be opened, makes no difference to
/// the search, wherever it stands. A library that can be opened, that is, whose handle is not
/// zero, is the result where it stands first, whatever stands behind it.
pub proof fn law_other_objects_make_no_difference(
    before: Seq<LoadedObject>,
    object: LoadedObject,
    behind: Seq<LoadedObject>,
    found: usize,
)
    ensures
        !names_line_library(object.name) || object.handle == 0 ==> scan(
            before.push(object) + behind,
            found,
        ) == scan(before + behind, found),
        names_line_library(object.name) && object.handle != 0 ==> scan(
            seq![object] + behind,
            found,
        ) == object.handle,
        scan(Seq::empty(), found) == found,
    decreases before.len(),
{
    let whole = before.push(object) + behind;
    if before.len() == 0 {
        assert(whole[0] == object);
        assert(whole.drop_first() =~= behind);
        assert(before + behind =~= behind);
    } else {
        law_other_objects_make_no_difference(before.drop_first(), object, behind, found);
        assert(whole.drop_first() =~= before.drop_first().push(object) + behind);
        assert((before + behind).drop_first() =~= before.drop_first() + behind);
        assert(whole[0] == before[0]);
    }
}

/// The search ends with the first line-editing library that can be opened, and with zero only
/// where there is none.
pub proof fn law_scan_finds_the_first(objects: Seq<LoadedObject>)
    ensures
        scan(objects, 0) == 0 <==> forall|i: int|
            0 <= i < objects.len() ==> !is_hit(#[trigger] objects[i]),
        forall|i: int|
            #![trigger objects[i]]
            0 <= i < objects.len() && is_hit(objects[i]) && (forall|j: int|
                0 <= j < i ==> !is_hit(#[trigger] objects[j])) ==> scan(objects, 0)
                == objects[i].handle,
    decreases objects.len(),
{
    if objects.len() > 0 {
        let rest = objects.drop_first();
        law_scan_finds_the_first(rest);
        assert forall|i: int| 0 <= i < rest.len() implies #[trigger] rest[i] == objects[i + 1] by {}
        if !is_hit(objects[0]) {
            if scan(objects, 0) == 0 {
                assert forall|i: int| 0 <= i < objects.len() implies !is_hit(
                    #[trigger] objects[i],
                ) by {
                    if i > 0 {
                        assert(objects[i] == rest[i - 1]);
                    }
                }
            }
            assert forall|i: int|
                #![trigger objects[i]]
                0 <= i < objects.len() && is_hit(objects[i]) && (forall|j: int|
                    0 <= j < i ==> !is_hit(#[trigger] objects[j])) implies scan(objects, 0)
                == objects[i].handle by {
                assert(objects[i] == rest[i - 1]);
                assert forall|j: int| 0 <= j < i - 1 implies !is_hit(#[trigger] rest[j]) by {
                    assert(rest[j] == objects[j + 1]);
                }
            }
        } else {
            assert forall|i: int|
                #![trigger objects[i]]
                0 <= i < objects.len() && is_hit(objects[i]) && (forall|j: int|
                    0 <= j < i ==> !is_hit(#[trigger] objects[j])) implies scan(objects, 0)
                == objects[i].handle by {
                if i > 0 {
                    assert(!is_hit(objects[0]));
                }
            }
        }
    }
}

/// The library is found once and kept: the first of a row of calls searches the objects that
/// are loaded then, and every later call returns what that search found, zero included, without
/// a search, whatever has been loaded or unloaded since. `loaded[i]` is what is loaded at call
/// `i`.
pub proof fn law_library_is_found_once(loaded: Seq<Seq<LoadedObject>>)
    ensures
        ({
            let offers = loaded.map_values(|objects: Seq<LoadedObject>| scan(objects, 0));
            &&& calls(None::<usize>, offers).len() == loaded.len()
            &&& forall|i: int|
                0 <= i < loaded.len() ==> #[trigger] calls(None::<usize>, offers)[i] == (
                    i == 0,
                    scan(loaded[0], 0),
                )
        }),
{
    let offers = loaded.map_values(|objects: Seq<LoadedObject>| scan(objects, 0));
    law_first_value_is_kept(offers);
}

/// Where a symbol is looked for first.
#[derive(Clone, Copy, PartialEq, Eq, Structural, Debug)]
pub enum Scope {
    /// In all that is loaded, in the order of loading: `RTLD_DEFAULT`.
    Default,
    /// In what was loaded behind this library: `RTLD_NEXT`. There an interposed function finds
    /// the real one and not itself.
    Next,
}

/// Where the lookup of a symbol stands, and what it asks for next.
#[derive(Clone, Copy, PartialEq, Eq, Structural, Debug)]
pub enum Lookup {
    /// Asks for the address of the symbol in this scope.
    InScope(Scope),
    /// Asks for a handle on the line-editing library.
    OpenLibrary,
    /// Asks for the address of the symbol in the library with this handle.
    InLibrary(usize),
    /// The lookup is over, with this address.
    Found(usize),
}

/// The lookup after `answer`.
pub open spec fn lookup_next(at: Lookup, answer: usize) -> Lookup {
    match at {
        Lookup::InScope(_) => if answer != 0 {
            Lookup::Found(answer)
        } else {
            Lookup::OpenLibrary
        },
        Lookup::OpenLibrary => if answer != 0 {
            Lookup::InLibrary(answer)
        } else {
            Lookup::Found(0)
        },
        Lookup::InLibrary(_) => Lookup::Found(answer),
        Lookup::Found(_) => at,
    }
}

/// Takes the answer to what the lookup asked for. A finished lookup stays as it is.
pub fn lookup(at: Lookup, answer: usize) -> (next: Lookup)
    ensures
        next == lookup_next(at, answer),
{
    match at {
        Lookup::InScope(_) => if answer != 0 {
            Lookup::Found(answer)
        } else {
            Lookup::OpenLibrary
        },
        Lookup::OpenLibrary => if answer != 0 {
            Lookup::InLibrary(answer)
        } else {
            Lookup::Found(0)
        },
        Lookup::InLibrary(_) => Lookup::Found(answer),
        Lookup::Found(_) => at,
    }
}

/// A symbol that the scope has is taken from there, and the library is not asked. Otherwise it
/// is taken from the line-editing library, where one is loaded. `in_scope`, `library` and
/// `in_library` are the answers to the three questions.
pub proof fn law_lookup_prefers_the_scope(
    scope: Scope,
    in_scope: usize,
    library: usize,
    in_library: usize,
)
    ensures
        in_scope != 0 ==> lookup_next(Lookup::InScope(scope), in_scope) == Lookup::Found(in_scope),
        in_scope == 0 && library == 0 ==> lookup_next(
            lookup_next(Lookup::InScope(scope), in_scope),
            library,
        ) == Lookup::Found(0),
        in_scope == 0 && library != 0 ==> {
            let asked = lookup_next(lookup_next(Lookup::InScope(scope), in_scope), library);
            asked == Lookup::InLibrary(library) && lookup_next(asked, in_library)
                == Lookup::Found(in_library)
        },
        lookup_next(Lookup::Found(in_scope), library) == Lookup::Found(in_scope),
{
}

/// `address` as that of a function: none where it is zero.
pub open spec fn address_of(address: usize) -> Option<usize> {
    if address == 0 {
        None
    } else {
        Some(address)
    }
}

/// A function at `address`, where there is one.
pub fn resolve_fn(address: usize) -> (found: Option<usize>)
    ensures
        found == address_of(address),
{
    if address == 0 {
        None
    } else {
        Some(address)
    }
}

/// What the line-editing library of the process offers: its functions, where it has them, and
/// the addresses of its variables, zero where it lacks them. `rl_replace_line` is only recorded:
/// libedit's does not carry writes to `rl_point` over to its own cursor.
#[derive(Clone, Copy, PartialEq, Eq, Structural, Debug)]
pub struct Symbols {
    pub rl_add_defun: Option<usize>,
    pub rl_kill_text: Option<usize>,
    pub rl_insert_text: Option<usize>,
    pub rl_forced_update_display: Option<usize>,
    pub rl_on_new_line: Option<usize>,
    pub rl_reverse_search_history: Option<usize>,
    pub history_list: Option<usize>,
    pub rl_line_buffer: usize,
    pub rl_point: usize,
    pub rl_end: usize,
    pub rl_replace_line: Option<usize>,
}

/// The names of the symbols, in the order in which they are looked up.
pub open spec fn symbol_name_list() -> Seq<Seq<char>> {
    seq![
        "rl_add_defun"@,
        "rl_kill_text"@,
        "rl_insert_text"@,
        "rl_forced_update_display"@,
        "rl_on_new_line"@,
        "rl_reverse_search_history"@,
        "history_list"@,
        "rl_line_buffer"@,
        "rl_point"@,
        "rl_end"@,
        "rl_replace_line"@,
    ]
}

/// Lists the symbols to look up.
pub fn symbol_names() -> (names: [&'static str; 11])
    ensures
        names@.map_values(|name: &str| name@) == symbol_name_list(),
        forall|i: int| 0 <= i < 11 ==> !(#[trigger] names@[i])@.contains('\0'),
{
    let names: [&'static str; 11] = [
        "rl_add_defun",
        "rl_kill_text",
        "rl_insert_text",
        "rl_forced_update_display",
        "rl_on_new_line",
        "rl_reverse_search_history",
        "history_list",
        "rl_line_buffer",
        "rl_point",
        "rl_end",
        "rl_replace_line",
    ];
    proof {
        reveal_strlit("rl_add_defun");
        reveal_strlit("rl_kill_text");
        reveal_strlit("rl_insert_text");
        reveal_strlit("rl_forced_update_display");
        reveal_strlit("rl_on_new_line");
        reveal_strlit("rl_reverse_search_history");
        reveal_strlit("history_list");
        reveal_strlit("rl_line_buffer");
        reveal_strlit("rl_point");
        reveal_strlit("rl_end");
        reveal_strlit("rl_replace_line");
        assert(names@.map_values(|name: &str| name@) =~= symbol_name_list());
    }
    names
}

/// The scope in which the symbols of the table are looked for.
pub fn table_scope() -> (scope: Scope)
    ensures
        scope is Default,
{
    Scope::Default
}

/// The table for the addresses that the lookups of `symbol_names` gave, in that order.
pub open spec fn table_of(found: Seq<usize>) -> Symbols {
    Symbols {
        rl_add_defun: address_of(found[0]),
        rl_kill_text: address_of(found[1]),
        rl_insert_text: address_of(found[2]),
        rl_forced_update_display: address_of(found[3]),
        rl_on_new_line: address_of(found[4]),
        rl_reverse_search_history: address_of(found[5]),
        history_list: address_of(found[6]),
        rl_line_buffer: found[7],
        rl_point: found[8],
        rl_end: found[9],
        rl_replace_line: address_of(found[10]),
    }
}

/// Builds the table from the addresses that the lookups of `symbol_names` gave, in that order.
/// It is kept for the rest of the process, unless an earlier one is kept already: then the
/// earlier one is the result. Where `kept` knows a table, there is nothing to look up.
pub fn syms(kept: &mut Memo<Symbols>, found: [usize; 11]) -> (symbols: Symbols)
    ensures
        final(kept)@ == kept_next(old(kept)@, table_of(found@)),
        final(kept)@ == Some(symbols),
{
    kept.keep(
        Symbols {
            rl_add_defun: resolve_fn(found[0]),
            rl_kill_text: resolve_fn(found[1]),
            rl_insert_text: resolve_fn(found[2]),
            rl_forced_update_display: resolve_fn(found[3]),
            rl_on_new_line: resolve_fn(found[4]),
            rl_reverse_search_history: resolve_fn(found[5]),
            history_list: resolve_fn(found[6]),
            rl_line_buffer: found[7],
            rl_point: found[8],
            rl_end: found[9],
            rl_replace_line: resolve_fn(found[10]),
        },
    )
}

/// The table is built once and kept: the first of a row of calls looks the symbols up, and every
/// later call returns the table of the first without a lookup, so that a symbol found missing
/// stays missing. `found[i]` is what the lookups would give at call `i`.
pub proof fn law_table_is_built_once(found: Seq<[usize; 11]>)
    ensures
        ({
            let offers = found.map_values(|addresses: [usize; 11]| table_of(addresses@));
            &&& calls(None::<Symbols>, offers).len() == found.len()
            &&& forall|i: int|
                0 <= i < found.len() ==> #[trigger] calls(None::<Symbols>, offers)[i] == (
                    i == 0,
                    table_of(found[0]@),
                )
        }),
{
    let offers = found.map_values(|addresses: [usize; 11]| table_of(addresses@));
    law_first_value_is_kept(offers);
}

/// Each field of the table is about the symbol with the field's own name. `addresses` is any
/// assignment of addresses to names, and the table is built from the addresses of the names
/// that are looked up.
pub proof fn law_fields_are_filled_by_their_names(
    addresses: spec_fn(Seq<char>) -> usize,
    found: Seq<usize>,
)
    requires
        found.len() == symbol_name_list().len(),
        forall|i: int|
            0 <= i < found.len() ==> #[trigger] found[i] == addresses(symbol_name_list()[i]),
    ensures
        ({
            let table = table_of(found);
            let function = |name: Seq<char>|
                if addresses(name) != 0 {
                    Some(addresses(name))
                } else {
                    None
                };
            &&& table.rl_add_defun == function("rl_add_defun"@)
            &&& table.rl_kill_text == function("rl_kill_text"@)
            &&& table.rl_insert_text == function("rl_insert_text"@)
            &&& table.rl_forced_update_display == function("rl_forced_update_display"@)
            &&& table.rl_on_new_line == function("rl_on_new_line"@)
            &&& table.rl_reverse_search_history == function("rl_reverse_search_history"@)
            &&& table.history_list == function("history_list"@)
            &&& table.rl_replace_line == function("rl_replace_line"@)
            &&& table.rl_line_buffer == addresses("rl_line_buffer"@)
            &&& table.rl_point == addresses("rl_point"@)
            &&& table.rl_end == addresses("rl_end"@)
        }),
{
    let names = symbol_name_list();
    assert(found[0] == addresses(names[0]));
    assert(found[1] == addresses(names[1]));
    assert(found[2] == addresses(names[2]));
    assert(found[3] == addresses(names[3]));
    assert(found[4] == addresses(names[4]));
    assert(found[5] == addresses(names[5]));
    assert(found[6] == addresses(names[6]));
    assert(found[7] == addresses(names[7]));
    assert(found[8] == addresses(names[8]));
    assert(found[9] == addresses(names[9]));
    assert(found[10] == addresses(names[10]));
}

/// There is a function at every address but zero.
pub proof fn law_only_zero_is_no_function(address: usize)
    ensures
        address_of(0) is None,
        address != 0 ==> address_of(address) == Some(address),
{
}

} // verus!
