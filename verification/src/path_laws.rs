//! What paths name: where a relative path leads, what the last part of a path is, and how a directory
//! is shown.

use crate::footer::{resolved_parts, shown_directory};
use crate::resources::{
    base_name, dir_name, group_label, is_local, is_separator, listed_name, normal_parts,
    relative_path, shared_parts, shown_base_dir, through_separator, PackageScope, PathMetadata,
    ResourceOrigin, ResourceType,
};
use crate::text::{index_of_char, join, lemma_index_of_char_bounds, split, trim};
use vstd::prelude::*;
use vstd::string::*;

verus! {

broadcast use vstd::string::group_string_axioms;

/// Whether a part of a path names an entry of its directory.
pub open spec fn is_entry(part: Seq<char>) -> bool {
    part.len() > 0 && part != "."@ && part != ".."@
}

proof fn lemma_dots()
    ensures
        "."@ == seq!['.'],
        ".."@ == seq!['.', '.'],
        "."@ != ".."@,
        "."@.len() == 1,
        ".."@.len() == 2,
{
    reveal_strlit(".");
    reveal_strlit("..");
    assert("."@ =~= seq!['.']);
    assert(".."@ =~= seq!['.', '.']);
}

proof fn lemma_normal_parts_are_entries(parts: Seq<Seq<char>>, i: int)
    requires
        0 <= i < normal_parts(parts).len(),
    ensures
        is_entry(normal_parts(parts)[i]),
        exists|k: int| 0 <= k < parts.len() && #[trigger] parts[k] == normal_parts(parts)[i],
    decreases parts.len(),
{
    let shorter = parts.drop_last();
    let before = normal_parts(shorter);
    if i < before.len() {
        lemma_normal_parts_are_entries(shorter, i);
        let k = choose|k: int| 0 <= k < shorter.len() && #[trigger] shorter[k] == before[i];
        assert(parts[k] == before[i]);
    } else {
        assert(parts[parts.len() - 1] == normal_parts(parts)[i]);
    }
}

proof fn lemma_normal_after(a: Seq<Seq<char>>, b: Seq<Seq<char>>)
    requires
        forall|i: int| 0 <= i < b.len() ==> is_entry(#[trigger] b[i]),
    ensures
        normal_parts(a + b) == normal_parts(a) + b,
    decreases b.len(),
{
    if b.len() == 0 {
        assert(a + b =~= a);
        assert(normal_parts(a) + b =~= normal_parts(a));
    } else {
        let shorter = b.drop_last();
        assert forall|i: int| 0 <= i < shorter.len() implies is_entry(#[trigger] shorter[i]) by {
            assert(is_entry(b[i]));
        }
        lemma_normal_after(a, shorter);
        assert((a + b).drop_last() =~= a + shorter);
        assert((a + b).last() == b.last());
        assert(is_entry(b[b.len() - 1]));
        assert((normal_parts(a) + shorter).push(b.last()) =~= normal_parts(a) + b);
    }
}

proof fn lemma_normal_ups(a: Seq<Seq<char>>, n: nat)
    requires
        n <= normal_parts(a).len(),
    ensures
        normal_parts(a + Seq::new(n, |i: int| ".."@)) == normal_parts(a).take(
            normal_parts(a).len() - n,
        ),
    decreases n,
{
    lemma_dots();
    let ups = Seq::new(n, |i: int| ".."@);
    if n == 0 {
        assert(a + ups =~= a);
        assert(normal_parts(a).take(normal_parts(a).len() as int) =~= normal_parts(a));
    } else {
        let fewer = Seq::new((n - 1) as nat, |i: int| ".."@);
        lemma_normal_ups(a, (n - 1) as nat);
        assert((a + ups).drop_last() =~= a + fewer);
        assert((a + ups).last() == ".."@);
        let before = normal_parts(a).take(normal_parts(a).len() - (n - 1));
        assert(before.drop_last() =~= normal_parts(a).take(normal_parts(a).len() - n));
    }
}

proof fn lemma_shared(a: Seq<Seq<char>>, b: Seq<Seq<char>>)
    ensures
        shared_parts(a, b) <= a.len(),
        shared_parts(a, b) <= b.len(),
        a.take(shared_parts(a, b) as int) == b.take(shared_parts(a, b) as int),
    decreases a.len(),
{
    let n = shared_parts(a, b) as int;
    if a.len() > 0 && b.len() > 0 && a[0] == b[0] {
        lemma_shared(a.skip(1), b.skip(1));
        assert forall|i: int| 0 <= i < n implies a.take(n)[i] == b.take(n)[i] by {
            if i > 0 {
                assert(a.skip(1).take(n - 1)[i - 1] == a[i]);
                assert(b.skip(1).take(n - 1)[i - 1] == b[i]);
            }
        }
        assert(a.take(n) =~= b.take(n));
    } else {
        assert(a.take(0) =~= b.take(0));
    }
}

proof fn lemma_split_join(a: Seq<char>, b: Seq<char>, c: char)
    ensures
        split(a + seq![c] + b, c) == split(a, c) + split(b, c),
    decreases a.len(),
{
    let whole = a + seq![c] + b;
    lemma_index_of_char_bounds(a, c);
    lemma_index_of_char_bounds(whole, c);
    let n = index_of_char(a, c) as int;
    let m = index_of_char(whole, c) as int;
    if n < a.len() {
        assert(whole[n] == c);
        assert(m == n) by {
            if m < n {
                assert(whole[m] == a[m]);
            }
        }
        let rest = a.skip(n + 1);
        lemma_split_join(rest, b, c);
        assert(whole.skip(n + 1) =~= rest + seq![c] + b);
        assert(whole.take(n) =~= a.take(n));
        assert(split(whole, c) =~= split(a, c) + split(b, c));
    } else {
        assert(whole[a.len() as int] == c);
        assert(m == a.len()) by {
            if m < a.len() {
                assert(whole[m] == a[m]);
            }
        }
        assert(whole.take(m) =~= a);
        assert(whole.skip(m + 1) =~= b);
        assert(split(whole, c) =~= split(a, c) + split(b, c));
    }
}

proof fn lemma_split_none(s: Seq<char>, c: char)
    requires
        !s.contains(c),
    ensures
        split(s, c) == seq![s],
{
    lemma_index_of_char_bounds(s, c);
    if index_of_char(s, c) < s.len() {
        assert(s[index_of_char(s, c) as int] == c);
    }
}

proof fn lemma_split_of_join(parts: Seq<Seq<char>>, c: char)
    requires
        parts.len() > 0,
        forall|i: int| 0 <= i < parts.len() ==> !(#[trigger] parts[i]).contains(c),
    ensures
        split(join(parts, seq![c]), c) == parts,
    decreases parts.len(),
{
    if parts.len() == 1 {
        lemma_split_none(parts[0], c);
        assert(parts =~= seq![parts[0]]);
    } else {
        let shorter = parts.drop_last();
        assert forall|i: int| 0 <= i < shorter.len() implies !(#[trigger] shorter[i]).contains(c) by {
            assert(!parts[i].contains(c));
        }
        lemma_split_of_join(shorter, c);
        assert(!parts[parts.len() - 1].contains(c));
        lemma_split_none(parts.last(), c);
        lemma_split_join(join(shorter, seq![c]), parts.last(), c);
        assert(shorter + seq![parts.last()] =~= parts);
    }
}

proof fn lemma_split_pieces(s: Seq<char>, c: char, k: int)
    requires
        0 <= k < split(s, c).len(),
    ensures
        !split(s, c)[k].contains(c),
{
    crate::text_laws::pieces_lie_between_the_separators(s, c, k);
}

/// Following a relative path from the directory that it starts at leads to where it was made for.
pub proof fn relative_paths_lead_to_their_goal(from: Seq<char>, to: Seq<char>)
    ensures
        normal_parts(split(from + "/"@ + relative_path(from, to), '/')) == normal_parts(
            split(to, '/'),
        ),
{
    lemma_dots();
    reveal_strlit("/");
    assert("/"@ =~= seq!['/']);
    let a = normal_parts(split(from, '/'));
    let b = normal_parts(split(to, '/'));
    lemma_shared(a, b);
    let n = shared_parts(a, b) as int;
    let ups = Seq::new((a.len() - n) as nat, |i: int| ".."@);
    let downs = b.skip(n);
    let steps = ups + downs;
    let relative = relative_path(from, to);
    assert(relative == join(steps, seq!['/']));
    assert forall|i: int| 0 <= i < downs.len() implies is_entry(#[trigger] downs[i]) by {
        lemma_normal_parts_are_entries(split(to, '/'), n + i);
    }
    lemma_split_join(from, relative, '/');
    let start = split(from, '/');
    if steps.len() > 0 {
        assert forall|i: int| 0 <= i < steps.len() implies !(#[trigger] steps[i]).contains('/') by {
            if i < ups.len() {
                assert(steps[i] == ".."@);
                assert(!".."@.contains('/'));
            } else {
                let j = i - ups.len();
                lemma_normal_parts_are_entries(split(to, '/'), n + j);
                let k = choose|k: int|
                    0 <= k < split(to, '/').len() && #[trigger] split(to, '/')[k] == b[n + j];
                lemma_split_pieces(to, '/', k);
                assert(steps[i] == b[n + j]);
            }
        }
        lemma_split_of_join(steps, '/');
        assert(start + steps =~= (start + ups) + downs);
        lemma_normal_ups(start, (a.len() - n) as nat);
        lemma_normal_after(start + ups, downs);
        assert(a.take(n) + downs =~= b) by {
            assert(b.take(n) + downs =~= b);
        }
    } else {
        assert(relative =~= Seq::empty());
        lemma_split_none(relative, '/');
        assert((start + seq![relative]).drop_last() =~= start);
        assert((start + seq![relative]).last() == relative);
        assert(a =~= a.take(n));
        assert(b =~= b.take(n));
    }
}

/// The relative path to the directory itself is empty.
pub proof fn no_steps_lead_to_the_same_place(from: Seq<char>)
    ensures
        relative_path(from, from).len() == 0,
{
    let a = normal_parts(split(from, '/'));
    lemma_shared_self(a);
    let ups = Seq::new((a.len() - shared_parts(a, a)) as nat, |i: int| ".."@);
    assert(ups + a.skip(shared_parts(a, a) as int) =~= Seq::empty());
}

proof fn lemma_shared_self(a: Seq<Seq<char>>)
    ensures
        shared_parts(a, a) == a.len(),
    decreases a.len(),
{
    if a.len() > 0 {
        lemma_shared_self(a.skip(1));
    }
}

/// Resolving a path takes out its empty parts and its dots.
pub proof fn resolved_paths_name_entries(path: Seq<char>, i: int)
    requires
        0 <= i < normal_parts(split(path, '/')).len(),
    ensures
        is_entry(normal_parts(split(path, '/'))[i]),
        !normal_parts(split(path, '/'))[i].contains('/'),
{
    lemma_normal_parts_are_entries(split(path, '/'), i);
    let k = choose|k: int|
        0 <= k < split(path, '/').len() && #[trigger] split(path, '/')[k] == normal_parts(
            split(path, '/'),
        )[i];
    lemma_split_pieces(path, '/', k);
}

/// The home directory is shown as a tilde, what lies in it from the tilde on, and nothing else so.
pub proof fn directories_under_home_start_with_a_tilde(
    cwd: Seq<char>,
    home: Seq<char>,
    current_dir: Seq<char>,
)
    ensures
        shown_directory(home, Some(home), current_dir) == "~"@,
        shown_directory(cwd, None, current_dir) == cwd,
        resolved_parts(home, current_dir).is_prefix_of(resolved_parts(cwd, current_dir)) ==> "~"@.is_prefix_of(
            shown_directory(cwd, Some(home), current_dir),
        ),
        !resolved_parts(home, current_dir).is_prefix_of(resolved_parts(cwd, current_dir))
            ==> shown_directory(cwd, Some(home), current_dir) == cwd,
{
    let outside = resolved_parts(home, current_dir);
    assert(outside.take(outside.len() as int) =~= outside);
    assert(seq!["~"@] + outside.skip(outside.len() as int) =~= seq!["~"@]);
    let inside = resolved_parts(cwd, current_dir);
    if outside.is_prefix_of(inside) {
        assert(inside.take(outside.len() as int) =~= outside);
        lemma_join_starts(seq!["~"@] + inside.skip(outside.len() as int), "/"@);
    } else if outside.len() <= inside.len() && inside.take(outside.len() as int) == outside {
        assert(outside.is_prefix_of(inside));
    }
}

proof fn lemma_join_starts(parts: Seq<Seq<char>>, sep: Seq<char>)
    requires
        parts.len() > 0,
    ensures
        parts[0].is_prefix_of(join(parts, sep)),
    decreases parts.len(),
{
    if parts.len() > 1 {
        lemma_join_starts(parts.drop_last(), sep);
    } else {
        assert(parts[0].is_prefix_of(parts[0]));
    }
}

proof fn lemma_through(s: Seq<char>)
    ensures
        through_separator(s) <= s.len(),
        through_separator(s) > 0 ==> is_separator(s[through_separator(s) - 1]),
        forall|i: int| through_separator(s) <= i < s.len() ==> !is_separator(#[trigger] s[i]),
    decreases s.len(),
{
    if s.len() > 0 && !is_separator(s.last()) {
        lemma_through(s.drop_last());
        assert forall|i: int| through_separator(s) <= i < s.len() implies !is_separator(
            #[trigger] s[i],
        ) by {
            if i < s.len() - 1 {
                assert(s.drop_last()[i] == s[i]);
            }
        }
    }
}

/// The name of a file is what follows its directory and the separator behind it.
pub proof fn paths_are_a_directory_and_a_name(directory: Seq<char>, name: Seq<char>, separator: char)
    requires
        directory.len() > 0,
        separator == '/' || separator == '\\',
        !name.contains('/'),
        !name.contains('\\'),
    ensures
        base_name(directory + seq![separator] + name) == name,
        dir_name(directory + seq![separator] + name) == directory,
        base_name(name) == name,
        dir_name(name) == "."@,
{
    let path = directory + seq![separator] + name;
    lemma_through(path);
    lemma_through(name);
    let n = through_separator(path) as int;
    let d = directory.len() as int;
    assert(path[d] == separator);
    assert(is_separator(path[d]));
    if n > d + 1 {
        assert(path[n - 1] == name[n - 2 - d]);
        assert(name.contains(path[n - 1]));
    }
    assert(n == d + 1);
    assert(path.skip(n) =~= name);
    assert(path.take(d) =~= directory);
    if through_separator(name) > 0 {
        assert(name.contains(name[through_separator(name) - 1]));
    }
    assert(name.skip(0) =~= name);
}

/// A skill is listed by the folder of its main file, an extension with its folder if that is not the one
/// for extensions, and everything else by the name of its file.
pub proof fn resources_are_listed_by_name(
    parent: Seq<char>,
    folder: Seq<char>,
    file: Seq<char>,
    kind: ResourceType,
)
    requires
        parent.len() > 0,
        !folder.contains('/'),
        !folder.contains('\\'),
        !file.contains('/'),
        !file.contains('\\'),
    ensures
        ({
            let listed = listed_name(parent + "/"@ + folder + "/"@ + file, kind);
            &&& kind == ResourceType::Skills && file == "SKILL.md"@ ==> listed == folder
            &&& kind == ResourceType::Skills && file != "SKILL.md"@ ==> listed == file
            &&& kind == ResourceType::Extensions && folder == "extensions"@ ==> listed == file
            &&& kind == ResourceType::Extensions && folder != "extensions"@ ==> listed == folder
                + "/"@ + file
            &&& kind != ResourceType::Skills && kind != ResourceType::Extensions ==> listed == file
        }),
{
    reveal_strlit("/");
    assert("/"@ =~= seq!['/']);
    let directory = parent + "/"@ + folder;
    paths_are_a_directory_and_a_name(directory, file, '/');
    paths_are_a_directory_and_a_name(parent, folder, '/');
}

/// A directory is shown with a slash at its end and without backslashes; under the home directory it is
/// shown from a tilde on.
pub proof fn directories_end_with_a_slash(base: Seq<char>, home: Seq<char>, rest: Seq<char>)
    requires
        home.len() > 0,
    ensures
        shown_base_dir(base, home).last() == '/',
        !home.is_prefix_of(base) ==> !shown_base_dir(base, home).contains('\\'),
        shown_base_dir(home, home) == seq!['~', '/'],
        shown_base_dir(home + rest, home)[0] == '~',
        !home.is_prefix_of(base) && !base.contains('\\') && base.len() > 0 && base.last() == '/'
            ==> shown_base_dir(base, home) == base,
{
    assert(shown_base_dir(home, home) =~= seq!['~', '/']);
    assert(home.is_prefix_of(home + rest));
    if !home.is_prefix_of(base) {
        assert(base != home);
        if !base.contains('\\') && base.len() > 0 && base.last() == '/' {
            assert forall|i: int| 0 <= i < base.len() implies base[i] != '\\' by {
                assert(base.contains(base[i]));
            }
            assert(shown_base_dir(base, home) =~= base);
        }
    }
}

/// Packages that come from a registry, a repository or the network are told by how their source starts;
/// all others lie on the disk.
pub proof fn sources_tell_where_packages_lie(rest: Seq<char>, source: Seq<char>)
    requires
        rest.len() > 0,
        !crate::text::is_whitespace(rest.last()),
    ensures
        !is_local("npm:"@ + rest),
        !is_local("git:"@ + rest),
        !is_local("https:"@ + rest),
        !is_local("ssh:"@ + rest),
        !trim(source).contains(':') ==> is_local(source),
{
    reveal_strlit("npm:");
    reveal_strlit("git:");
    reveal_strlit("github:");
    reveal_strlit("http:");
    reveal_strlit("https:");
    reveal_strlit("ssh:");
    assert(("npm:"@ + rest)[0] == 'n' && ("git:"@ + rest)[0] == 'g' && ("https:"@ + rest)[0] == 'h'
        && ("ssh:"@ + rest)[0] == 's');
    assert(trim("npm:"@ + rest) == "npm:"@ + rest);
    assert(trim("git:"@ + rest) == "git:"@ + rest);
    assert(trim("https:"@ + rest) == "https:"@ + rest);
    assert(trim("ssh:"@ + rest) == "ssh:"@ + rest);
    let s = trim(source);
    if !s.contains(':') {
        assert forall|i: int| 0 <= i < s.len() implies s[i] != ':' by {
            assert(s.contains(s[i]));
        }
        assert("npm:"@.last() == ':' && "git:"@.last() == ':' && "github:"@.last() == ':'
            && "http:"@.last() == ':' && "https:"@.last() == ':' && "ssh:"@.last() == ':');
        lemma_not_prefix("npm:"@, s);
        lemma_not_prefix("git:"@, s);
        lemma_not_prefix("github:"@, s);
        lemma_not_prefix("http:"@, s);
        lemma_not_prefix("https:"@, s);
        lemma_not_prefix("ssh:"@, s);
    }
}

proof fn lemma_not_prefix(p: Seq<char>, s: Seq<char>)
    requires
        p.len() > 0,
        forall|i: int| 0 <= i < s.len() ==> s[i] != p.last(),
    ensures
        !p.is_prefix_of(s),
{
    if p.is_prefix_of(s) {
        assert(s[p.len() - 1] == p.last());
    }
}

/// A package is headed by its source and its scope; what is found without one is headed by whose it is.
pub proof fn groups_are_headed_by_where_they_come_from(
    metadata: PathMetadata,
    agent_dir: Seq<char>,
    home: Seq<char>,
)
    ensures
        ({
            let label = group_label(metadata, agent_dir, home);
            let user = metadata.scope == PackageScope::User;
            &&& metadata.origin == ResourceOrigin::Package ==> (metadata.source@ + " ("@).is_prefix_of(
                label,
            )
            &&& metadata.origin == ResourceOrigin::TopLevel && user ==> "User "@.is_prefix_of(label)
            &&& metadata.origin == ResourceOrigin::TopLevel && !user ==> "Project "@.is_prefix_of(
                label,
            )
        }),
{
    reveal_strlit("User ");
    reveal_strlit("User (");
    reveal_strlit("User settings");
    reveal_strlit("Project ");
    reveal_strlit("Project (");
    reveal_strlit("Project (.pi/)");
    reveal_strlit("Project settings");
    assert("User ("@ =~= "User "@ + seq!['(']);
    assert("Project ("@ =~= "Project "@ + seq!['(']);
    assert("User "@.is_prefix_of("User settings"@));
    assert("Project "@.is_prefix_of("Project settings"@));
    assert("Project "@.is_prefix_of("Project (.pi/)"@));
}

} // verus!
