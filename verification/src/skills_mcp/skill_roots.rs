//! Where the skills are in an archive without a manifest.
use crate::text::text_views;
use vstd::prelude::*;

verus! {

/// A directory of an unpacked archive.
#[derive(Debug)]
pub struct Folder {
    pub name: String,
    /// Whether it holds a `SKILL.md`.
    pub described: bool,
    pub folders: Vec<Folder>,
}

/// The directories below a directory that hold a skill, each by the names that lead to it: one
/// that is described is a skill as a whole, whatever is below it.
pub open spec fn skill_roots(folder: Folder, path: Seq<Seq<char>>) -> Seq<Seq<Seq<char>>>
    decreases folder,
{
    if folder.described {
        seq![path]
    } else {
        roots_among(folder.folders@, path)
    }
}

/// The directories below these ones that hold a skill.
pub open spec fn roots_among(folders: Seq<Folder>, path: Seq<Seq<char>>) -> Seq<Seq<Seq<char>>>
    decreases folders,
{
    if folders.len() == 0 {
        seq![]
    } else {
        roots_among(folders.drop_last(), path) + skill_roots(
            folders[folders.len() - 1],
            path.push(folders[folders.len() - 1].name@),
        )
    }
}

/// Paths, as contracts speak of them.
pub open spec fn path_views(paths: Seq<Vec<String>>) -> Seq<Seq<Seq<char>>> {
    paths.map_values(|path: Vec<String>| text_views(path@))
}

fn copy_path(path: &Vec<String>) -> (r: Vec<String>)
    ensures
        text_views(r@) == text_views(path@),
{
    let mut out: Vec<String> = Vec::new();
    let mut i: usize = 0;
    while i < path.len()
        invariant
            i <= path@.len(),
            out@.len() == i,
            forall|j: int| 0 <= j < i ==> (#[trigger] out@[j])@ == path@[j]@,
        decreases path@.len() - i,
    {
        out.push(path[i].clone());
        i = i + 1;
    }
    assert(text_views(out@) =~= text_views(path@));
    out
}

/// Finds the directories that hold a skill.
pub fn find_skill_roots(folder: &Folder, path: &Vec<String>) -> (r: Vec<Vec<String>>)
    ensures
        path_views(r@) == skill_roots(*folder, text_views(path@)),
    decreases *folder,
{
    let mut out: Vec<Vec<String>> = Vec::new();
    if folder.described {
        let path = copy_path(path);
        out.push(path);
        assert(path_views(out@) =~= seq![text_views(path@)]);
        return out;
    }
    let ghost all = folder.folders@;
    let ghost base = text_views(path@);
    let mut i: usize = 0;
    assert(path_views(out@) =~= roots_among(all.take(0), base));
    while i < folder.folders.len()
        invariant
            i <= all.len(),
            all == folder.folders@,
            base == text_views(path@),
            path_views(out@) == roots_among(all.take(i as int), base),
        decreases all.len() - i,
    {
        let below = &folder.folders[i];
        let mut inner = copy_path(path);
        inner.push(below.name.clone());
        assert(text_views(inner@) =~= base.push(below.name@));
        let mut found = find_skill_roots(below, &inner);
        let ghost before = out@;
        let ghost added = found@;
        out.append(&mut found);
        proof {
            assert(out@ =~= before + added);
            assert(path_views(out@) =~= path_views(before) + path_views(added));
            let longer = all.take(i + 1);
            assert(longer.drop_last() =~= all.take(i as int));
            assert(longer[longer.len() - 1] == all[i as int]);
        }
        i = i + 1;
    }
    assert(all.take(all.len() as int) =~= all);
    out
}

/// Whether these names lead from a directory to a skill: through directories that hold none, to
/// one that does.
pub open spec fn leads_to_skill(folder: Folder, names: Seq<Seq<char>>) -> bool
    decreases names.len(),
{
    if names.len() == 0 {
        folder.described
    } else {
        !folder.described && exists|i: int|
            0 <= i < folder.folders@.len() && (#[trigger] folder.folders@[i]).name@ == names[0]
                && leads_to_skill(folder.folders@[i], names.drop_first())
    }
}

/// Whether directories beside each other have different names, here and everywhere below.
pub open spec fn told_apart(folder: Folder) -> bool
    decreases folder,
{
    &&& forall|i: int, j: int|
        0 <= i < j < folder.folders@.len() ==> (#[trigger] folder.folders@[i]).name@ != (
        #[trigger] folder.folders@[j]).name@
    &&& forall|i: int|
        0 <= i < folder.folders@.len() ==> told_apart(#[trigger] folder.folders@[i])
}

proof fn lemma_found_below(folders: Seq<Folder>, path: Seq<Seq<char>>, found: Seq<Seq<char>>)
    requires
        roots_among(folders, path).contains(found),
    ensures
        exists|i: int|
            0 <= i < folders.len() && skill_roots(
                #[trigger] folders[i],
                path.push(folders[i].name@),
            ).contains(found),
    decreases folders,
{
    let at = folders.len() - 1;
    let earlier = roots_among(folders.drop_last(), path);
    let here = skill_roots(folders[at], path.push(folders[at].name@));
    let k = roots_among(folders, path).index_of(found);
    if k < earlier.len() {
        assert(earlier[k] == found);
        lemma_found_below(folders.drop_last(), path, found);
        let i = choose|i: int|
            0 <= i < folders.drop_last().len() && skill_roots(
                #[trigger] folders.drop_last()[i],
                path.push(folders.drop_last()[i].name@),
            ).contains(found);
        assert(folders.drop_last()[i] == folders[i]);
    } else {
        assert(here[k - earlier.len()] == found);
        assert(here.contains(found));
    }
}

proof fn lemma_below_is_found(
    folders: Seq<Folder>,
    path: Seq<Seq<char>>,
    i: int,
    found: Seq<Seq<char>>,
)
    requires
        0 <= i < folders.len(),
        skill_roots(folders[i], path.push(folders[i].name@)).contains(found),
    ensures
        roots_among(folders, path).contains(found),
    decreases folders,
{
    let at = folders.len() - 1;
    let earlier = roots_among(folders.drop_last(), path);
    let here = skill_roots(folders[at], path.push(folders[at].name@));
    let all = roots_among(folders, path);
    if i < at {
        assert(folders.drop_last()[i] == folders[i]);
        lemma_below_is_found(folders.drop_last(), path, i, found);
        let k = earlier.index_of(found);
        assert(all[k] == found);
    } else {
        let k = here.index_of(found);
        assert(all[earlier.len() + k] == found);
    }
}

/// Exactly the directories that names lead to through directories without a skill are found.
pub proof fn law_every_skill_is_found(folder: Folder, path: Seq<Seq<char>>, names: Seq<Seq<char>>)
    ensures
        skill_roots(folder, path).contains(path + names) <==> leads_to_skill(folder, names),
    decreases names.len(),
{
    if folder.described {
        assert(skill_roots(folder, path)[0] == path);
        assert(names.len() == 0 ==> path + names =~= path);
        assert(names.len() > 0 ==> (path + names).len() != path.len());
    } else {
        let all = folder.folders@;
        if skill_roots(folder, path).contains(path + names) {
            lemma_found_below(all, path, path + names);
            let i = choose|i: int|
                0 <= i < all.len() && skill_roots(
                    #[trigger] all[i],
                    path.push(all[i].name@),
                ).contains(path + names);
            let inner = path.push(all[i].name@);
            lemma_roots_start(all[i], inner, path + names);
            assert((path + names)[path.len() as int] == inner[path.len() as int]);
            assert(path + names =~= inner + names.drop_first());
            law_every_skill_is_found(all[i], inner, names.drop_first());
        }
        if leads_to_skill(folder, names) {
            let i = choose|i: int|
                0 <= i < all.len() && (#[trigger] all[i]).name@ == names[0] && leads_to_skill(
                    all[i],
                    names.drop_first(),
                );
            let inner = path.push(all[i].name@);
            law_every_skill_is_found(all[i], inner, names.drop_first());
            assert(path + names =~= inner + names.drop_first());
            lemma_below_is_found(all, path, i, path + names);
        }
    }
}

proof fn lemma_roots_start(folder: Folder, path: Seq<Seq<char>>, found: Seq<Seq<char>>)
    requires
        skill_roots(folder, path).contains(found),
    ensures
        path.len() <= found.len(),
        found.take(path.len() as int) == path,
    decreases folder,
{
    if folder.described {
        assert(found.take(path.len() as int) =~= path);
    } else {
        lemma_among_start(folder.folders@, path, found);
    }
}

proof fn lemma_among_start(folders: Seq<Folder>, path: Seq<Seq<char>>, found: Seq<Seq<char>>)
    requires
        roots_among(folders, path).contains(found),
    ensures
        path.len() < found.len(),
        found.take(path.len() as int) == path,
    decreases folders,
{
    let at = folders.len() - 1;
    let earlier = roots_among(folders.drop_last(), path);
    let inner = path.push(folders[at].name@);
    let here = skill_roots(folders[at], inner);
    let k = roots_among(folders, path).index_of(found);
    if k < earlier.len() {
        assert(earlier[k] == found);
        lemma_among_start(folders.drop_last(), path, found);
    } else {
        assert(here[k - earlier.len()] == found);
        lemma_roots_start(folders[at], inner, found);
        assert(found.take(path.len() as int) =~= found.take(inner.len() as int).take(
            path.len() as int,
        ));
        assert(inner.take(path.len() as int) =~= path);
    }
}

/// No skill that is found lies inside another one.
pub proof fn law_skills_do_not_nest(folder: Folder, outer: Seq<Seq<char>>, inner: Seq<Seq<char>>)
    requires
        told_apart(folder),
        leads_to_skill(folder, outer),
        leads_to_skill(folder, inner),
        outer.len() <= inner.len(),
        inner.take(outer.len() as int) == outer,
    ensures
        outer == inner,
    decreases outer.len(),
{
    if outer.len() == 0 {
        assert(inner.len() == 0);
        assert(outer =~= inner);
    } else {
        let all = folder.folders@;
        let i = choose|i: int|
            0 <= i < all.len() && (#[trigger] all[i]).name@ == outer[0] && leads_to_skill(
                all[i],
                outer.drop_first(),
            );
        let j = choose|j: int|
            0 <= j < all.len() && (#[trigger] all[j]).name@ == inner[0] && leads_to_skill(
                all[j],
                inner.drop_first(),
            );
        assert(inner.take(outer.len() as int)[0] == inner[0]);
        assert(all[i].name@ == all[j].name@);
        assert(i == j);
        assert(inner.drop_first().take(outer.len() - 1) =~= inner.take(
            outer.len() as int,
        ).drop_first());
        law_skills_do_not_nest(all[i], outer.drop_first(), inner.drop_first());
        assert(outer =~= seq![outer[0]] + outer.drop_first());
        assert(inner =~= seq![inner[0]] + inner.drop_first());
    }
}

} // verus!
