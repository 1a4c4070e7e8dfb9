//! What holds of every hot update, proved from its definition.

use vstd::prelude::*;
use crate::chunk::{ChunkKind, ChunkUkey, ChunkView};
use crate::chunk_graph::ChunkGraphView;
use crate::compilation::CompilationView;
use crate::hmr::{
    changed_modules, chunk_step, chunk_steps, chunk_updated_modules, compared, comparison_text,
    connect_all, diff_outcome, emit_manifests, fresh_contents, hot_update, hot_update_chunk,
    is_updated,
    lemma_changed_modules_keys, old_chunks, persistent_chunk_ids, record_removed, record_updated,
    removed_in, updated_in, HotUpdateContentView,
};
use crate::module::ModuleView;
use crate::plugin::Plugin;
use crate::runtime::{runtime_difference, runtime_intersection};
use crate::text::{
    lemma_filter_contains, lemma_filter_empty, lemma_filter_none, lemma_index_of_unique,
    lemma_index_of_within, set_insert,
};
use crate::text_map::{has_key, keys_of, lookup};

verus! {

/// The chunk graph knows exactly the chunks of the compilation, each under
/// its position.
pub open spec fn graph_tracks(c: CompilationView) -> bool {
    &&& c.chunk_graph.chunks == Seq::new(c.chunks.len(), |i: int| i as usize)
    &&& c.chunk_graph.members.dom() == c.chunk_graph.chunks.to_set()
    &&& c.chunks.len() <= usize::MAX
}

/// `after` is `before` with more hot-update chunks at the end and, maybe,
/// other assets: the chunks of `before` are there with the members they
/// had, every further chunk is a hot-update chunk, and modules, chunk
/// groups, entrypoints and generated code are the same.
pub open spec fn grows_from(before: CompilationView, after: CompilationView) -> bool {
    &&& before.chunks.len() <= after.chunks.len()
    &&& forall|h: int|
        0 <= h < before.chunks.len() ==> #[trigger] after.chunks[h] == before.chunks[h]
    &&& forall|h: ChunkUkey|
        h < before.chunks.len() ==> #[trigger] after.chunk_graph.modules_of(h)
            == before.chunk_graph.modules_of(h)
    &&& forall|h: int|
        before.chunks.len() <= h < after.chunks.len() ==> (#[trigger] after.chunks[h]).kind
            == ChunkKind::HotUpdate
    &&& after.module_graph == before.module_graph
    &&& after.chunk_groups == before.chunk_groups
    &&& after.entrypoints == before.entrypoints
    &&& after.code_generation_results == before.code_generation_results
    &&& after.state == before.state
    &&& after.diagnostics == before.diagnostics
}

/// A compilation that grew has the lasting chunks it had, under the ids
/// they had.
pub proof fn lemma_grown_find_chunk(before: CompilationView, after: CompilationView, id: Seq<char>)
    requires
        before.wf(),
        grows_from(before, after),
    ensures
        after.find_chunk(id) == before.find_chunk(id),
        before.find_chunk(id) matches Some(u) ==> before.is_persistent_chunk(u as int, id),
{
    if exists|i: int| after.is_persistent_chunk(i, id) {
        let i = choose|i: int| after.is_persistent_chunk(i, id);
        if i >= before.chunks.len() {
            assert(after.chunks[i].kind == ChunkKind::HotUpdate);
        }
        assert(after.chunks[i] == before.chunks[i]);
        assert(before.is_persistent_chunk(i, id));
        let j = choose|j: int| before.is_persistent_chunk(j, id);
        if i < j {
            assert(before.chunks[i].id != before.chunks[j].id);
        }
        if j < i {
            assert(before.chunks[j].id != before.chunks[i].id);
        }
    } else if exists|j: int| before.is_persistent_chunk(j, id) {
        let j = choose|j: int| before.is_persistent_chunk(j, id);
        assert(after.chunks[j] == before.chunks[j]);
        assert(after.is_persistent_chunk(j, id));
    }
}

/// Growing twice is growing.
pub proof fn lemma_grows_transitive(a: CompilationView, b: CompilationView, c: CompilationView)
    requires
        grows_from(a, b),
        grows_from(b, c),
    ensures
        grows_from(a, c),
{
    assert forall|h: int| 0 <= h < a.chunks.len() implies #[trigger] c.chunks[h]
        == a.chunks[h] by {
        assert(b.chunks[h] == a.chunks[h]);
    }
    assert forall|h: ChunkUkey| h < a.chunks.len() implies #[trigger] c.chunk_graph.modules_of(h)
        == a.chunk_graph.modules_of(h) by {
        assert(b.chunk_graph.modules_of(h) == a.chunk_graph.modules_of(h));
    }
    assert forall|h: int| a.chunks.len() <= h < c.chunks.len() implies (#[trigger] c.chunks[h]).kind
        == ChunkKind::HotUpdate by {
        if h < b.chunks.len() {
            assert(b.chunks[h].kind == ChunkKind::HotUpdate);
            assert(c.chunks[h] == b.chunks[h]);
        }
    }
}

/// What putting modules into a chunk that the graph knows does: that
/// chunk gains the modules, every other chunk keeps its own, and the graph
/// knows the chunks it knew.
pub proof fn lemma_connect_all(
    graph: ChunkGraphView,
    ukey: ChunkUkey,
    modules: Seq<Seq<char>>,
    count: int,
)
    requires
        graph.has_chunk(ukey),
        graph.members.dom() == graph.chunks.to_set(),
        0 <= count <= modules.len(),
    ensures
        connect_all(graph, ukey, modules, count).chunks == graph.chunks,
        connect_all(graph, ukey, modules, count).members.dom() == graph.members.dom(),
        forall|m: Seq<char>|
            #[trigger] connect_all(graph, ukey, modules, count).modules_of(ukey).contains(m) <==> (
            graph.modules_of(ukey).contains(m) || modules.take(count).contains(m)),
        forall|u: ChunkUkey|
            u != ukey ==> #[trigger] connect_all(graph, ukey, modules, count).modules_of(u)
                == graph.modules_of(u),
    decreases count,
{
    if count > 0 {
        lemma_connect_all(graph, ukey, modules, count - 1);
        let before = connect_all(graph, ukey, modules, count - 1);
        let after = before.connect(ukey, modules[count - 1]);
        assert(before.members.dom().contains(ukey));
        assert(after.members.dom() =~= before.members.dom());
        let seen = modules.take(count - 1);
        let now = modules.take(count);
        assert(now =~= seen.push(modules[count - 1]));
        assert forall|m: Seq<char>| #[trigger]
            after.modules_of(ukey).contains(m) <==> (graph.modules_of(ukey).contains(m)
                || now.contains(m)) by {
            assert(before.modules_of(ukey).contains(m) <==> (graph.modules_of(ukey).contains(m)
                || seen.contains(m)));
            if seen.contains(m) {
                let k = choose|k: int| 0 <= k < seen.len() && seen[k] == m;
                assert(now[k] == m);
            }
            if now.contains(m) {
                let k = choose|k: int| 0 <= k < now.len() && now[k] == m;
                if k < seen.len() {
                    assert(seen[k] == m);
                }
            }
            assert(now[count - 1] == modules[count - 1]);
        }
        assert forall|u: ChunkUkey| u != ukey implies #[trigger] after.modules_of(u)
            == graph.modules_of(u) by {
            assert(before.modules_of(u) == graph.modules_of(u));
        }
    } else {
        assert(modules.take(0) =~= Seq::<Seq<char>>::empty());
    }
}

/// What one step of the diff does to a compilation and to the contents.
///
/// The step adds at most one chunk and never touches the chunks that are
/// there. It adds a chunk exactly when the new build has a lasting chunk of
/// the id, that chunk shares a runtime with the old build, and it holds an
/// updated module; the chunk it adds is a hot-update chunk of that id whose
/// members are the updated modules of that chunk, and no others. The
/// contents keep their number and their file names, and the step records
/// no chunk id but its own. Where the chunk is found and shares no runtime
/// with the old build, the step changes nothing at all.
pub proof fn lemma_chunk_step<P: Plugin>(
    plugins: Seq<P>,
    c: CompilationView,
    k: Seq<HotUpdateContentView>,
    runtimes: Seq<Seq<char>>,
    updated: Seq<Seq<char>>,
    chunk_id: Seq<char>,
)
    requires
        graph_tracks(c),
        chunk_step(plugins, c, k, runtimes, updated, chunk_id) is Ok,
    ensures
        ({
            let (d, l) = chunk_step(plugins, c, k, runtimes, updated, chunk_id)->Ok_0;
            let found = c.find_chunk(chunk_id);
            let makes_chunk = found is Some && runtime_intersection(
                runtimes,
                c.chunks[found->Some_0 as int].runtime,
            ).len() > 0 && chunk_updated_modules(c, found->Some_0, updated).len() > 0;
            &&& grows_from(c, d)
            &&& graph_tracks(d) || d.chunks.len() > usize::MAX
            &&& l.len() == k.len()
            &&& forall|i: int| 0 <= i < k.len() ==> (#[trigger] l[i]).filename == k[i].filename
            &&& forall|i: int, other: Seq<char>|
                0 <= i < k.len() && other != chunk_id ==> (
                #[trigger] l[i].updated_chunk_ids.contains(other)
                    <==> k[i].updated_chunk_ids.contains(other))
            &&& forall|i: int, other: Seq<char>|
                0 <= i < k.len() && other != chunk_id ==> (
                #[trigger] l[i].removed_chunk_ids.contains(other)
                    <==> k[i].removed_chunk_ids.contains(other))
            &&& d.chunks.len() == c.chunks.len() + (if makes_chunk {
                1int
            } else {
                0int
            })
            &&& !makes_chunk ==> d == c
            &&& makes_chunk ==> {
                &&& d.chunks[c.chunks.len() as int].id == c.chunks[found->Some_0 as int].id
                &&& d.chunks[c.chunks.len() as int].runtime == runtime_intersection(
                    runtimes,
                    c.chunks[found->Some_0 as int].runtime,
                )
                &&& forall|m: Seq<char>|
                    #[trigger] d.chunk_graph.modules_of(c.chunks.len() as usize).contains(m) <==> (
                    updated.contains(m) && c.chunk_graph.modules_of(found->Some_0).contains(m))
            }
            &&& (found is Some && runtime_intersection(
                runtimes,
                c.chunks[found->Some_0 as int].runtime,
            ).len() == 0) ==> l == k
            &&& !makes_chunk ==> forall|i: int|
                0 <= i < k.len() ==> (#[trigger] l[i]).updated_chunk_ids == k[i].updated_chunk_ids
            &&& (found is Some && runtime_difference(
                runtimes,
                runtime_intersection(runtimes, c.chunks[found->Some_0 as int].runtime),
            ).len() == 0) ==> forall|i: int|
                0 <= i < k.len() ==> (#[trigger] l[i]).removed_chunk_ids == k[i].removed_chunk_ids
        }),
{
    let (d, l) = chunk_step(plugins, c, k, runtimes, updated, chunk_id)->Ok_0;
    match c.find_chunk(chunk_id) {
        None => {
            lemma_recorded(k, runtimes, runtimes, chunk_id);
        },
        Some(current) => {
            let chunk = c.chunks[current as int];
            let new_runtime = runtime_intersection(runtimes, chunk.runtime);
            if new_runtime.len() > 0 {
                let removed_from_runtime = runtime_difference(runtimes, new_runtime);
                let new_modules = chunk_updated_modules(c, current, updated);
                let recorded = record_removed(k, runtimes, removed_from_runtime, chunk_id);
                lemma_recorded(k, runtimes, removed_from_runtime, chunk_id);
                if removed_from_runtime.len() == 0 {
                    assert forall|i: int| 0 <= i < k.len() implies recorded[i] == k[i] by {
                        if 0 <= i < runtimes.len() && removed_from_runtime.contains(runtimes[i]) {
                            let w = choose|w: int|
                                0 <= w < removed_from_runtime.len() && removed_from_runtime[w]
                                    == runtimes[i];
                        }
                    }
                }
                if new_modules.len() > 0 {
                    let ukey = c.chunks.len() as usize;
                    let hot = hot_update_chunk(c, chunk, new_runtime, new_modules);
                    let with_chunk = c.add_chunk(hot);
                    assert(!c.chunk_graph.has_chunk(ukey)) by {
                        if c.chunk_graph.chunks.contains(ukey) {
                            let i = choose|i: int|
                                0 <= i < c.chunk_graph.chunks.len() && c.chunk_graph.chunks[i]
                                    == ukey;
                            assert(c.chunk_graph.chunks[i] == i as usize);
                        }
                    }
                    let grown = with_chunk.chunk_graph;
                    assert(grown.chunks[c.chunks.len() as int] == ukey);
                    assert(grown.has_chunk(ukey));
                    assert(grown.members.dom() =~= grown.chunks.to_set()) by {
                        assert forall|u: ChunkUkey|
                            grown.members.dom().contains(u) <==> grown.chunks.to_set().contains(
                                u,
                            ) by {
                            if c.chunk_graph.chunks.contains(u) {
                                let i = choose|i: int|
                                    0 <= i < c.chunk_graph.chunks.len() && c.chunk_graph.chunks[i]
                                        == u;
                                assert(grown.chunks[i] == u);
                            }
                            if grown.chunks.contains(u) && u != ukey {
                                let i = choose|i: int|
                                    0 <= i < grown.chunks.len() && grown.chunks[i] == u;
                                assert(c.chunk_graph.chunks[i] == u);
                            }
                        }
                    }
                    lemma_connect_all(grown, ukey, new_modules, new_modules.len() as int);
                    let connected_graph = connect_all(
                        grown,
                        ukey,
                        new_modules,
                        new_modules.len() as int,
                    );
                    assert(new_modules.take(new_modules.len() as int) =~= new_modules);
                    assert(grown.modules_of(ukey) =~= Set::<Seq<char>>::empty());
                    assert forall|m: Seq<char>| #[trigger]
                        connected_graph.modules_of(ukey).contains(m) <==> (updated.contains(m)
                            && c.chunk_graph.modules_of(current).contains(m)) by {
                        lemma_filter_contains(
                            updated,
                            |id: Seq<char>| c.chunk_graph.modules_of(current).contains(id),
                            m,
                        );
                    }
                    assert forall|h: ChunkUkey| h < c.chunks.len() implies (
                    #[trigger] connected_graph.modules_of(h)) == c.chunk_graph.modules_of(h) by {
                        assert(grown.modules_of(h) == c.chunk_graph.modules_of(h));
                    }
                    assert(d.chunks =~= c.chunks.push(ChunkView { ukey, ..hot }));
                    if d.chunks.len() <= usize::MAX {
                        assert(d.chunk_graph.chunks =~= Seq::new(
                            d.chunks.len(),
                            |i: int| i as usize,
                        ));
                    }
                    lemma_recorded(recorded, runtimes, new_runtime, chunk_id);
                    assert(c.is_persistent_chunk(current as int, chunk_id));
                }
            }
        },
    }
}

/// Recording a chunk id keeps the number and the file names of the
/// contents, and touches no other chunk id.
pub proof fn lemma_recorded(
    contents: Seq<HotUpdateContentView>,
    runtimes: Seq<Seq<char>>,
    affected: Seq<Seq<char>>,
    chunk_id: Seq<char>,
)
    ensures
        record_removed(contents, runtimes, affected, chunk_id).len() == contents.len(),
        record_updated(contents, runtimes, affected, chunk_id).len() == contents.len(),
        forall|i: int|
            0 <= i < contents.len() ==> {
                let removed = #[trigger] record_removed(contents, runtimes, affected, chunk_id)[i];
                &&& removed.filename == contents[i].filename
                &&& removed.updated_chunk_ids == contents[i].updated_chunk_ids
                &&& forall|other: Seq<char>|
                    other != chunk_id ==> (#[trigger] removed.removed_chunk_ids.contains(other)
                        <==> contents[i].removed_chunk_ids.contains(other))
            },
        forall|i: int|
            0 <= i < contents.len() ==> {
                let updated = #[trigger] record_updated(contents, runtimes, affected, chunk_id)[i];
                &&& updated.filename == contents[i].filename
                &&& updated.removed_chunk_ids == contents[i].removed_chunk_ids
                &&& forall|other: Seq<char>|
                    other != chunk_id ==> (#[trigger] updated.updated_chunk_ids.contains(other)
                        <==> contents[i].updated_chunk_ids.contains(other))
            },
{
    assert forall|i: int| 0 <= i < contents.len() implies {
        let removed = #[trigger] record_removed(contents, runtimes, affected, chunk_id)[i];
        &&& removed.filename == contents[i].filename
        &&& removed.updated_chunk_ids == contents[i].updated_chunk_ids
        &&& forall|other: Seq<char>|
            other != chunk_id ==> (#[trigger] removed.removed_chunk_ids.contains(other)
                <==> contents[i].removed_chunk_ids.contains(other))
    } by {
        let removed = record_removed(contents, runtimes, affected, chunk_id)[i];
        assert forall|other: Seq<char>| other != chunk_id implies (
        #[trigger] removed.removed_chunk_ids.contains(other)
            <==> contents[i].removed_chunk_ids.contains(other)) by {
            lemma_set_insert(contents[i].removed_chunk_ids, chunk_id, other);
        }
    }
    assert forall|i: int| 0 <= i < contents.len() implies {
        let updated = #[trigger] record_updated(contents, runtimes, affected, chunk_id)[i];
        &&& updated.filename == contents[i].filename
        &&& updated.removed_chunk_ids == contents[i].removed_chunk_ids
        &&& forall|other: Seq<char>|
            other != chunk_id ==> (#[trigger] updated.updated_chunk_ids.contains(other)
                <==> contents[i].updated_chunk_ids.contains(other))
    } by {
        let updated = record_updated(contents, runtimes, affected, chunk_id)[i];
        assert forall|other: Seq<char>| other != chunk_id implies (
        #[trigger] updated.updated_chunk_ids.contains(other)
            <==> contents[i].updated_chunk_ids.contains(other)) by {
            lemma_set_insert(contents[i].updated_chunk_ids, chunk_id, other);
        }
    }
}

/// Adding to a list as to a set adds that element and no other.
pub proof fn lemma_set_insert(s: Seq<Seq<char>>, x: Seq<char>, y: Seq<char>)
    ensures
        set_insert(s, x).contains(y) <==> (s.contains(y) || y == x),
{
    if !s.contains(x) {
        let t = s.push(x);
        assert(t[s.len() as int] == x);
        if s.contains(y) {
            let i = choose|i: int| 0 <= i < s.len() && s[i] == y;
            assert(t[i] == y);
        }
        if t.contains(y) {
            let i = choose|i: int| 0 <= i < t.len() && t[i] == y;
            if i < s.len() {
                assert(s[i] == y);
            }
        }
    }
}

/// A sound compilation's chunk graph knows exactly its chunks.
pub proof fn lemma_wf_tracks(c: CompilationView)
    requires
        c.wf(),
        c.chunks.len() <= usize::MAX,
    ensures
        graph_tracks(c),
{
}

/// What the first `count` steps of the diff do, taken together. They only
/// add hot-update chunks to the compilation they start from, at most one
/// per step, and every member of such a chunk is an updated module. The
/// contents keep their number and their file names. And if `count` steps
/// succeed, so do fewer.
pub proof fn lemma_chunk_steps<P: Plugin>(
    plugins: Seq<P>,
    start: CompilationView,
    contents: Seq<HotUpdateContentView>,
    runtimes: Seq<Seq<char>>,
    updated: Seq<Seq<char>>,
    chunk_ids: Seq<Seq<char>>,
    count: int,
)
    requires
        graph_tracks(start),
        0 <= count <= chunk_ids.len(),
        start.chunks.len() + count <= usize::MAX,
        chunk_steps(plugins, start, contents, runtimes, updated, chunk_ids, count) is Ok,
    ensures
        ({
            let (c, k) = chunk_steps(
                plugins,
                start,
                contents,
                runtimes,
                updated,
                chunk_ids,
                count,
            )->Ok_0;
            &&& grows_from(start, c)
            &&& graph_tracks(c)
            &&& c.chunks.len() <= start.chunks.len() + count
            &&& k.len() == contents.len()
            &&& forall|i: int|
                0 <= i < contents.len() ==> (#[trigger] k[i]).filename == contents[i].filename
            &&& forall|h: ChunkUkey, m: Seq<char>|
                start.chunks.len() <= h < c.chunks.len() && #[trigger] c.chunk_graph.modules_of(
                    h,
                ).contains(m) ==> updated.contains(m)
        }),
        forall|fewer: int|
            0 <= fewer <= count ==> #[trigger] chunk_steps(
                plugins,
                start,
                contents,
                runtimes,
                updated,
                chunk_ids,
                fewer,
            ) is Ok,
    decreases count,
{
    if count > 0 {
        let earlier = chunk_steps(
            plugins,
            start,
            contents,
            runtimes,
            updated,
            chunk_ids,
            count - 1,
        );
        assert(earlier is Ok);
        lemma_chunk_steps(plugins, start, contents, runtimes, updated, chunk_ids, count - 1);
        let (c1, k1) = earlier->Ok_0;
        lemma_chunk_step(plugins, c1, k1, runtimes, updated, chunk_ids[count - 1]);
        let (c, k) = chunk_step(plugins, c1, k1, runtimes, updated, chunk_ids[count - 1])->Ok_0;
        lemma_grows_transitive(start, c1, c);
        assert forall|h: ChunkUkey, m: Seq<char>|
            start.chunks.len() <= h < c.chunks.len() && #[trigger] c.chunk_graph.modules_of(
                h,
            ).contains(m) implies updated.contains(m) by {
            if h < c1.chunks.len() {
                assert(c.chunk_graph.modules_of(h) == c1.chunk_graph.modules_of(h));
                assert(c1.chunk_graph.modules_of(h).contains(m));
            }
        }
        assert forall|fewer: int| 0 <= fewer <= count implies #[trigger] chunk_steps(
            plugins,
            start,
            contents,
            runtimes,
            updated,
            chunk_ids,
            fewer,
        ) is Ok by {
            if fewer < count {
            }
        }
    }
}

/// A module is reported as updated exactly when both builds have it, both
/// compare it, and its comparison texts differ.
pub proof fn lemma_updated_in(
    old: CompilationView,
    next: CompilationView,
    changed: Seq<Seq<char>>,
    removed: Seq<Seq<char>>,
    id: Seq<char>,
)
    requires
        old.module_graph.wf(),
        next.module_graph.wf(),
    ensures
        updated_in(old, next, changed, removed).contains(id) <==> {
            &&& old.module_graph.has(id)
            &&& next.module_graph.has(id)
            &&& compared(old, old.module_graph.module(id).unwrap(), changed, removed)
            &&& compared(next, next.module_graph.module(id).unwrap(), changed, removed)
            &&& comparison_text(old, old.module_graph.module(id).unwrap()) != comparison_text(
                next,
                next.module_graph.module(id).unwrap(),
            )
        },
        removed_in(old, next, changed, removed).contains(id) <==> {
            &&& old.module_graph.has(id)
            &&& compared(old, old.module_graph.module(id).unwrap(), changed, removed)
            &&& !(next.module_graph.has(id) && compared(
                next,
                next.module_graph.module(id).unwrap(),
                changed,
                removed,
            ))
        },
{
    let old_modules = changed_modules(old, changed, removed);
    let now_modules = changed_modules(next, changed, removed);
    lemma_changed_modules_keys(old, changed, removed);
    lemma_changed_modules_keys(next, changed, removed);
    lemma_changed_lookup(old, changed, removed, id);
    lemma_changed_lookup(next, changed, removed, id);
    let different = |e: (Seq<char>, Seq<char>)| is_updated(now_modules, e);
    let gone = |e: (Seq<char>, Seq<char>)| !has_key(now_modules, e.0);
    let key = |e: (Seq<char>, Seq<char>)| e.0;
    lemma_mapped_keys(old_modules, different, id);
    lemma_mapped_keys(old_modules, gone, id);
}

/// Among entries with distinct keys, the keys of those that pass a test
/// are the keys whose entry passes it.
proof fn lemma_mapped_keys(
    entries: Seq<(Seq<char>, Seq<char>)>,
    keep: spec_fn((Seq<char>, Seq<char>)) -> bool,
    id: Seq<char>,
)
    requires
        keys_of(entries).no_duplicates(),
    ensures
        entries.filter(keep).map_values(|e: (Seq<char>, Seq<char>)| e.0).contains(id) <==> (
        has_key(entries, id) && keep((id, lookup(entries, id).unwrap()))),
{
    let kept = entries.filter(keep);
    let keys = kept.map_values(|e: (Seq<char>, Seq<char>)| e.0);
    if keys.contains(id) {
        let i = choose|i: int| 0 <= i < keys.len() && keys[i] == id;
        let e = kept[i];
        assert(kept.contains(e));
        lemma_filter_contains(entries, keep, e);
        let g = choose|g: int| 0 <= g < entries.len() && entries[g] == e;
        assert(keys_of(entries)[g] == id);
        lemma_index_of_unique(keys_of(entries), g);
    }
    if has_key(entries, id) && keep((id, lookup(entries, id).unwrap())) {
        lemma_index_of_within(keys_of(entries), id);
        let g = keys_of(entries).index_of(id);
        let e = entries[g];
        assert(e == (id, lookup(entries, id).unwrap()));
        assert(entries.contains(e));
        lemma_filter_contains(entries, keep, e);
        let i = choose|i: int| 0 <= i < kept.len() && kept[i] == e;
        assert(keys[i] == id);
    }
}

/// What is found under a module's identifier among the changed modules is
/// the module's comparison text.
pub proof fn lemma_changed_lookup(
    compilation: CompilationView,
    changed: Seq<Seq<char>>,
    removed: Seq<Seq<char>>,
    id: Seq<char>,
)
    requires
        compilation.module_graph.wf(),
    ensures
        has_key(changed_modules(compilation, changed, removed), id) ==> lookup(
            changed_modules(compilation, changed, removed),
            id,
        ) == comparison_text(compilation, compilation.module_graph.module(id).unwrap()),
{
    let graph = compilation.module_graph;
    let keep = |m: ModuleView| compared(compilation, m, changed, removed);
    let kept = graph.modules.filter(keep);
    let result = changed_modules(compilation, changed, removed);
    lemma_changed_modules_keys(compilation, changed, removed);
    if has_key(result, id) {
        lemma_index_of_within(keys_of(result), id);
        let k = keys_of(result).index_of(id);
        let m = kept[k];
        assert(kept.contains(m));
        lemma_filter_contains(graph.modules, keep, m);
        let g = choose|g: int| 0 <= g < graph.modules.len() && graph.modules[g] == m;
        assert(graph.ids()[g] == id);
        lemma_index_of_unique(graph.ids(), g);
    }
}

/// Where no file changed or went away, no module is compared.
pub proof fn lemma_nothing_touched(compilation: CompilationView)
    ensures
        changed_modules(compilation, Seq::empty(), Seq::empty()) == Seq::<
            (Seq<char>, Seq<char>),
        >::empty(),
{
    let none = Seq::<Seq<char>>::empty();
    let keep = |m: ModuleView| compared(compilation, m, none, none);
    lemma_filter_none(compilation.module_graph.modules, keep);
    assert(changed_modules(compilation, none, none) =~= Seq::<(Seq<char>, Seq<char>)>::empty());
}

/// Whether every chunk of the old build is still there for every old
/// runtime that can load it: the new build has a lasting chunk of each id,
/// and that chunk is valid for all old runtimes or for none.
pub open spec fn runtimes_kept(old: CompilationView, next: CompilationView) -> bool {
    forall|j: int|
        0 <= j < persistent_chunk_ids(old).len() ==> {
            let found = next.find_chunk(#[trigger] persistent_chunk_ids(old)[j]);
            &&& found is Some
            &&& runtime_difference(
                old.entry_runtime(),
                runtime_intersection(
                    old.entry_runtime(),
                    next.chunks[found->Some_0 as int].runtime,
                ),
            ).len() == 0
        }
}

/// The steps of a diff in which no module was updated: they all succeed,
/// leave the compilation as it is, and record no chunk as updated. Where
/// in addition every chunk met so far is found and keeps the old runtimes,
/// they record no chunk as removed either.
pub proof fn lemma_steps_without_updates<P: Plugin>(
    plugins: Seq<P>,
    next: CompilationView,
    contents: Seq<HotUpdateContentView>,
    runtimes: Seq<Seq<char>>,
    chunk_ids: Seq<Seq<char>>,
    count: int,
)
    requires
        graph_tracks(next),
        0 <= count <= chunk_ids.len(),
    ensures
        chunk_steps(plugins, next, contents, runtimes, Seq::empty(), chunk_ids, count) is Ok,
        ({
            let (c, k) = chunk_steps(
                plugins,
                next,
                contents,
                runtimes,
                Seq::empty(),
                chunk_ids,
                count,
            )->Ok_0;
            &&& c == next
            &&& k.len() == contents.len()
            &&& forall|i: int|
                0 <= i < contents.len() ==> (#[trigger] k[i]).updated_chunk_ids
                    == contents[i].updated_chunk_ids && k[i].filename == contents[i].filename
            &&& (forall|j: int|
                0 <= j < count ==> {
                    let found = next.find_chunk(#[trigger] chunk_ids[j]);
                    &&& found is Some
                    &&& runtime_difference(
                        runtimes,
                        runtime_intersection(runtimes, next.chunks[found->Some_0 as int].runtime),
                    ).len() == 0
                }) ==> k == contents
        }),
    decreases count,
{
    if count > 0 {
        lemma_steps_without_updates(plugins, next, contents, runtimes, chunk_ids, count - 1);
        let none = Seq::<Seq<char>>::empty();
        let (c1, k1) = chunk_steps(
            plugins,
            next,
            contents,
            runtimes,
            none,
            chunk_ids,
            count - 1,
        )->Ok_0;
        let id = chunk_ids[count - 1];
        match next.find_chunk(id) {
            Some(u) => {
                lemma_filter_empty(|m: Seq<char>| next.chunk_graph.modules_of(u).contains(m));
                assert(chunk_updated_modules(next, u, none).len() == 0);
            },
            None => {},
        }
        assert(chunk_step(plugins, c1, k1, runtimes, none, id) is Ok);
        lemma_chunk_step(plugins, c1, k1, runtimes, none, id);
        let (c, k) = chunk_step(plugins, c1, k1, runtimes, none, id)->Ok_0;
        if (forall|j: int|
            0 <= j < count ==> {
                let found = next.find_chunk(#[trigger] chunk_ids[j]);
                &&& found is Some
                &&& runtime_difference(
                    runtimes,
                    runtime_intersection(runtimes, next.chunks[found->Some_0 as int].runtime),
                ).len() == 0
            }) {
            assert(next.find_chunk(chunk_ids[count - 1]) is Some);
            assert(k1 == contents);
            assert(k =~= k1);
        }
    }
}

/// Where no file changed or went away, a rebuild updates nothing. It
/// succeeds; the new build gets no update chunk and no asset but the
/// manifests; no manifest lists a chunk under `c` or a module under `m`;
/// and where every chunk of the old build is still there for the old
/// runtimes, no manifest lists a chunk under `r` either.
pub proof fn lemma_no_spurious_updates<P: Plugin>(
    plugins: Seq<P>,
    old: CompilationView,
    next: CompilationView,
)
    requires
        next.wf(),
        next.chunks.len() <= usize::MAX,
    ensures
        diff_outcome(plugins, old, next, Seq::empty(), Seq::empty()) is Ok,
        ({
            let (c, k) = diff_outcome(plugins, old, next, Seq::empty(), Seq::empty())->Ok_0;
            &&& c == next
            &&& k.len() == old.entry_runtime().len()
            &&& forall|i: int| 0 <= i < k.len() ==> (#[trigger] k[i]).updated_chunk_ids.len() == 0
            &&& runtimes_kept(old, next) ==> forall|i: int|
                0 <= i < k.len() ==> (#[trigger] k[i]).removed_chunk_ids.len() == 0
        }),
        removed_in(old, next, Seq::empty(), Seq::empty()).len() == 0,
        updated_in(old, next, Seq::empty(), Seq::empty()).len() == 0,
        hot_update(plugins, old, next, Seq::empty(), Seq::empty()) is Ok,
        ({
            let result = hot_update(plugins, old, next, Seq::empty(), Seq::empty())->Ok_0;
            let k = diff_outcome(plugins, old, next, Seq::empty(), Seq::empty())->Ok_0.1;
            &&& result.chunks == next.chunks
            &&& result.chunk_graph == next.chunk_graph
            &&& result == if old.entry_runtime().len() == 0 {
                next
            } else {
                CompilationView {
                    assets: emit_manifests(next.assets, k, Seq::empty(), k.len() as int),
                    ..next
                }
            }
        }),
{
    let none = Seq::<Seq<char>>::empty();
    lemma_nothing_touched(old);
    lemma_nothing_touched(next);
    let nothing = Seq::<(Seq<char>, Seq<char>)>::empty();
    lemma_filter_empty(|e: (Seq<char>, Seq<char>)| is_updated(nothing, e));
    lemma_filter_empty(|e: (Seq<char>, Seq<char>)| !has_key(nothing, e.0));
    assert(updated_in(old, next, none, none) =~= none);
    assert(removed_in(old, next, none, none) =~= none);
    let ids = persistent_chunk_ids(old);
    lemma_steps_without_updates(
        plugins,
        next,
        fresh_contents(old.entry_runtime()),
        old.entry_runtime(),
        ids,
        ids.len() as int,
    );
}

/// The union of the entrypoints' runtimes depends on the entrypoints and
/// the chunk groups alone.
pub proof fn lemma_entry_runtime_same(a: CompilationView, b: CompilationView, count: nat)
    requires
        a.entrypoints == b.entrypoints,
        a.chunk_groups == b.chunk_groups,
    ensures
        a.entry_runtime_of(count) == b.entry_runtime_of(count),
    decreases count,
{
    if count > 0 {
        lemma_entry_runtime_same(a, b, (count - 1) as nat);
    }
}

/// A rebuild after which nothing changed can be repeated without effect.
/// Let a rebuild without changed or removed files take the compiler from
/// `old` to `first`, where `old` and the new build `next` agree on the
/// runtimes of the entrypoints and on the ids of the lasting chunks. Then
/// `first` is `next` with the manifests and without any update chunk, and
/// a second such rebuild to the same `next` ends in `first` again.
pub proof fn lemma_noop_rebuild_idempotent<P: Plugin>(
    plugins: Seq<P>,
    old: CompilationView,
    next: CompilationView,
)
    requires
        next.wf(),
        next.chunks.len() <= usize::MAX,
        old.entry_runtime() == next.entry_runtime(),
        persistent_chunk_ids(old) == persistent_chunk_ids(next),
    ensures
        hot_update(plugins, old, next, Seq::empty(), Seq::empty()) is Ok,
        ({
            let first = hot_update(plugins, old, next, Seq::empty(), Seq::empty())->Ok_0;
            &&& first.chunks == next.chunks
            &&& hot_update(plugins, first, next, Seq::empty(), Seq::empty()) == Ok::<
                CompilationView,
                crate::error::ErrorView,
            >(first)
        }),
{
    let none = Seq::<Seq<char>>::empty();
    lemma_no_spurious_updates(plugins, old, next);
    let first = hot_update(plugins, old, next, none, none)->Ok_0;
    lemma_no_spurious_updates(plugins, first, next);
    lemma_entry_runtime_same(first, next, next.entrypoints.len());
    assert(old_chunks(first) =~= old_chunks(next)) by {
        assert(first.chunks == next.chunks);
        assert(first.chunk_graph == next.chunk_graph);
        let from_first = |c: ChunkView| (c.id, first.chunk_graph.modules_of(c.ukey));
        let from_next = |c: ChunkView| (c.id, next.chunk_graph.modules_of(c.ukey));
        let lasting = next.chunks.filter(|c: ChunkView| c.persistent());
        assert(lasting.map_values(from_first) =~= lasting.map_values(from_next));
    }
    assert(persistent_chunk_ids(first) == persistent_chunk_ids(old));
    assert(first.entry_runtime() == old.entry_runtime());
    assert(updated_in(first, next, none, none) =~= updated_in(old, next, none, none));
    assert(removed_in(first, next, none, none) =~= removed_in(old, next, none, none));
    assert(diff_outcome(plugins, first, next, none, none) == diff_outcome(
        plugins,
        old,
        next,
        none,
        none,
    ));
}

/// An update chunk, once made, stays through the steps that follow: at
/// position `made` of the compilation after `count` steps stands a
/// hot-update chunk of the id `chunk_id` that holds the module `id`,
/// provided the step for `chunk_id`, which is step number `at`, is among
/// those steps and had cause to make it.
proof fn lemma_sent_stays<P: Plugin>(
    plugins: Seq<P>,
    next: CompilationView,
    contents: Seq<HotUpdateContentView>,
    runtimes: Seq<Seq<char>>,
    updated: Seq<Seq<char>>,
    chunk_ids: Seq<Seq<char>>,
    at: int,
    count: int,
    id: Seq<char>,
) -> (made: int)
    requires
        next.wf(),
        0 <= at < count <= chunk_ids.len(),
        next.chunks.len() + count <= usize::MAX,
        chunk_steps(plugins, next, contents, runtimes, updated, chunk_ids, count) is Ok,
        updated.contains(id),
        next.find_chunk(chunk_ids[at]) is Some,
        next.chunk_graph.modules_of(next.find_chunk(chunk_ids[at])->Some_0).contains(id),
        runtime_intersection(
            runtimes,
            next.chunks[next.find_chunk(chunk_ids[at])->Some_0 as int].runtime,
        ).len() > 0,
    ensures
        ({
            let (c, k) = chunk_steps(
                plugins,
                next,
                contents,
                runtimes,
                updated,
                chunk_ids,
                count,
            )->Ok_0;
            &&& next.chunks.len() <= made < c.chunks.len()
            &&& c.chunks[made].kind == ChunkKind::HotUpdate
            &&& c.chunks[made].id == chunk_ids[at]
            &&& c.chunk_graph.modules_of(made as usize).contains(id)
        }),
    decreases count,
{
    lemma_wf_tracks(next);
    lemma_chunk_steps(plugins, next, contents, runtimes, updated, chunk_ids, count);
    lemma_chunk_steps(plugins, next, contents, runtimes, updated, chunk_ids, count - 1);
    let (c1, k1) = chunk_steps(
        plugins,
        next,
        contents,
        runtimes,
        updated,
        chunk_ids,
        count - 1,
    )->Ok_0;
    lemma_chunk_step(plugins, c1, k1, runtimes, updated, chunk_ids[count - 1]);
    let (c, k) = chunk_step(plugins, c1, k1, runtimes, updated, chunk_ids[count - 1])->Ok_0;
    if at == count - 1 {
        let chunk_id = chunk_ids[at];
        lemma_grown_find_chunk(next, c1, chunk_id);
        let u = next.find_chunk(chunk_id)->Some_0;
        assert(c1.chunks[u as int] == next.chunks[u as int]);
        assert(c1.chunk_graph.modules_of(u) == next.chunk_graph.modules_of(u));
        let held = |m: Seq<char>| c1.chunk_graph.modules_of(u).contains(m);
        lemma_filter_contains(updated, held, id);
        let picked = chunk_updated_modules(c1, u, updated);
        assert(picked.contains(id));
        assert(picked.len() > 0);
        let made = c1.chunks.len() as int;
        assert(c.chunks[made].kind == ChunkKind::HotUpdate);
        assert(next.is_persistent_chunk(u as int, chunk_id));
        made
    } else {
        let made = lemma_sent_stays(
            plugins,
            next,
            contents,
            runtimes,
            updated,
            chunk_ids,
            at,
            count - 1,
            id,
        );
        assert(c.chunks[made] == c1.chunks[made]);
        assert(c.chunk_graph.modules_of(made as usize) == c1.chunk_graph.modules_of(
            made as usize,
        ));
        made
    }
}

/// An updated module is sent with every chunk that holds it. Let both
/// builds have the module `id` and compare it, with different comparison
/// texts; for a module of the JavaScript family whose file is among the
/// changed files this means that its generated JavaScript differs. Let
/// `chunk_id` be the id of a lasting chunk of the old build, and let the new
/// build have a lasting chunk of that id that holds the module and shares a
/// runtime with the old build. Then a rebuild that succeeds has made a
/// hot-update chunk of that id that holds the module: it stands at the
/// position that this proof returns.
pub proof fn lemma_updated_module_is_sent<P: Plugin>(
    plugins: Seq<P>,
    old: CompilationView,
    next: CompilationView,
    changed: Seq<Seq<char>>,
    removed: Seq<Seq<char>>,
    id: Seq<char>,
    chunk_id: Seq<char>,
) -> (made: int)
    requires
        old.wf(),
        next.wf(),
        next.chunks.len() + persistent_chunk_ids(old).len() <= usize::MAX,
        old.module_graph.has(id),
        next.module_graph.has(id),
        compared(old, old.module_graph.module(id).unwrap(), changed, removed),
        compared(next, next.module_graph.module(id).unwrap(), changed, removed),
        comparison_text(old, old.module_graph.module(id).unwrap()) != comparison_text(
            next,
            next.module_graph.module(id).unwrap(),
        ),
        persistent_chunk_ids(old).contains(chunk_id),
        next.find_chunk(chunk_id) is Some,
        next.chunk_graph.modules_of(next.find_chunk(chunk_id)->Some_0).contains(id),
        runtime_intersection(
            old.entry_runtime(),
            next.chunks[next.find_chunk(chunk_id)->Some_0 as int].runtime,
        ).len() > 0,
        hot_update(plugins, old, next, changed, removed) is Ok,
    ensures
        ({
            let result = hot_update(plugins, old, next, changed, removed)->Ok_0;
            &&& next.chunks.len() <= made < result.chunks.len()
            &&& result.chunks[made].kind == ChunkKind::HotUpdate
            &&& result.chunks[made].id == chunk_id
            &&& result.chunk_graph.modules_of(made as usize).contains(id)
        }),
{
    let ids = persistent_chunk_ids(old);
    let runtimes = old.entry_runtime();
    lemma_updated_in(old, next, changed, removed, id);
    let at = choose|at: int| 0 <= at < ids.len() && ids[at] == chunk_id;
    assert(runtimes.len() > 0) by {
        if runtimes.len() == 0 {
            lemma_filter_empty(
                |t: Seq<char>|
                    next.chunks[next.find_chunk(chunk_id)->Some_0 as int].runtime.contains(t),
            );
            assert(runtimes =~= Seq::<Seq<char>>::empty());
        }
    }
    lemma_sent_stays(
        plugins,
        next,
        fresh_contents(runtimes),
        runtimes,
        updated_in(old, next, changed, removed),
        ids,
        at,
        ids.len() as int,
        id,
    )
}

/// A module that went away is reported and never sent. Let the old build
/// compare the module `id`, as it does a module of the JavaScript or the
/// stylesheet family whose file is among the removed files, and let the new
/// build not have it. Then every manifest of the rebuild lists the module
/// under `m`, the module does not count as updated, and no update chunk of
/// a rebuild that succeeds holds it.
pub proof fn lemma_removed_module_is_reported<P: Plugin>(
    plugins: Seq<P>,
    old: CompilationView,
    next: CompilationView,
    changed: Seq<Seq<char>>,
    removed: Seq<Seq<char>>,
    id: Seq<char>,
)
    requires
        old.wf(),
        next.wf(),
        next.chunks.len() + persistent_chunk_ids(old).len() <= usize::MAX,
        old.module_graph.has(id),
        compared(old, old.module_graph.module(id).unwrap(), changed, removed),
        !next.module_graph.has(id),
        hot_update(plugins, old, next, changed, removed) is Ok,
    ensures
        removed_in(old, next, changed, removed).contains(id),
        !updated_in(old, next, changed, removed).contains(id),
        forall|h: ChunkUkey|
            next.chunks.len() <= h < hot_update(
                plugins,
                old,
                next,
                changed,
                removed,
            )->Ok_0.chunks.len() ==> !(#[trigger] hot_update(
                plugins,
                old,
                next,
                changed,
                removed,
            )->Ok_0.chunk_graph.modules_of(h)).contains(id),
{
    lemma_updated_in(old, next, changed, removed, id);
    let ids = persistent_chunk_ids(old);
    let runtimes = old.entry_runtime();
    if runtimes.len() > 0 {
        lemma_wf_tracks(next);
        lemma_chunk_steps(
            plugins,
            next,
            fresh_contents(runtimes),
            runtimes,
            updated_in(old, next, changed, removed),
            ids,
            ids.len() as int,
        );
    }
}

/// What the steps of a diff do about a chunk that is dead to the old
/// runtimes: where the new build has a lasting chunk of the id `dead` that
/// shares no runtime with the old build, no step makes an update chunk of
/// that id, and no step records the id in any content.
pub proof fn lemma_dead_chunk_steps<P: Plugin>(
    plugins: Seq<P>,
    next: CompilationView,
    contents: Seq<HotUpdateContentView>,
    runtimes: Seq<Seq<char>>,
    updated: Seq<Seq<char>>,
    chunk_ids: Seq<Seq<char>>,
    count: int,
    dead: Seq<char>,
)
    requires
        next.wf(),
        0 <= count <= chunk_ids.len(),
        next.chunks.len() + count <= usize::MAX,
        chunk_steps(plugins, next, contents, runtimes, updated, chunk_ids, count) is Ok,
        next.find_chunk(dead) is Some,
        runtime_intersection(
            runtimes,
            next.chunks[next.find_chunk(dead)->Some_0 as int].runtime,
        ).len() == 0,
    ensures
        ({
            let (c, k) = chunk_steps(
                plugins,
                next,
                contents,
                runtimes,
                updated,
                chunk_ids,
                count,
            )->Ok_0;
            &&& k.len() == contents.len()
            &&& forall|h: int|
                next.chunks.len() <= h < c.chunks.len() ==> (#[trigger] c.chunks[h]).id != dead
            &&& forall|i: int|
                0 <= i < contents.len() ==> ((#[trigger] k[i]).updated_chunk_ids.contains(dead)
                    <==> contents[i].updated_chunk_ids.contains(dead))
            &&& forall|i: int|
                0 <= i < contents.len() ==> ((#[trigger] k[i]).removed_chunk_ids.contains(dead)
                    <==> contents[i].removed_chunk_ids.contains(dead))
        }),
    decreases count,
{
    if count > 0 {
        lemma_wf_tracks(next);
        lemma_chunk_steps(plugins, next, contents, runtimes, updated, chunk_ids, count);
        lemma_chunk_steps(plugins, next, contents, runtimes, updated, chunk_ids, count - 1);
        lemma_dead_chunk_steps(
            plugins,
            next,
            contents,
            runtimes,
            updated,
            chunk_ids,
            count - 1,
            dead,
        );
        let (c1, k1) = chunk_steps(
            plugins,
            next,
            contents,
            runtimes,
            updated,
            chunk_ids,
            count - 1,
        )->Ok_0;
        let chunk_id = chunk_ids[count - 1];
        lemma_chunk_step(plugins, c1, k1, runtimes, updated, chunk_id);
        let (c, k) = chunk_step(plugins, c1, k1, runtimes, updated, chunk_id)->Ok_0;
        lemma_grown_find_chunk(next, c1, chunk_id);
        lemma_grown_find_chunk(next, c1, dead);
        let u = next.find_chunk(dead)->Some_0;
        assert(c1.chunks[u as int] == next.chunks[u as int]);
        if chunk_id == dead {
            assert(k == k1);
            assert(c == c1);
        } else {
            assert forall|h: int| next.chunks.len() <= h < c.chunks.len() implies (
            #[trigger] c.chunks[h]).id != dead by {
                if h < c1.chunks.len() {
                    assert(c.chunks[h] == c1.chunks[h]);
                } else {
                    let found = c1.find_chunk(chunk_id)->Some_0;
                    assert(next.is_persistent_chunk(found as int, chunk_id));
                    assert(c1.chunks[found as int] == next.chunks[found as int]);
                }
            }
            assert forall|i: int| 0 <= i < contents.len() implies ((
            #[trigger] k[i]).updated_chunk_ids.contains(dead)
                <==> contents[i].updated_chunk_ids.contains(dead)) by {
                assert(k[i].updated_chunk_ids.contains(dead) <==> k1[i].updated_chunk_ids.contains(
                    dead,
                ));
            }
            assert forall|i: int| 0 <= i < contents.len() implies ((
            #[trigger] k[i]).removed_chunk_ids.contains(dead)
                <==> contents[i].removed_chunk_ids.contains(dead)) by {
                assert(k[i].removed_chunk_ids.contains(dead) <==> k1[i].removed_chunk_ids.contains(
                    dead,
                ));
            }
        }
    }
}

/// A chunk that no old runtime can load contributes nothing. Where the new
/// build has a lasting chunk of the id `dead` whose runtime shares no tag
/// with the runtimes of the old build, a rebuild that succeeds has made no
/// update chunk of that id, and no content lists the id, neither as
/// updated nor as removed.
pub proof fn lemma_dead_chunk_contributes_nothing<P: Plugin>(
    plugins: Seq<P>,
    old: CompilationView,
    next: CompilationView,
    changed: Seq<Seq<char>>,
    removed: Seq<Seq<char>>,
    dead: Seq<char>,
)
    requires
        next.wf(),
        next.chunks.len() + persistent_chunk_ids(old).len() <= usize::MAX,
        next.find_chunk(dead) is Some,
        runtime_intersection(
            old.entry_runtime(),
            next.chunks[next.find_chunk(dead)->Some_0 as int].runtime,
        ).len() == 0,
        diff_outcome(plugins, old, next, changed, removed) is Ok,
    ensures
        ({
            let (c, k) = diff_outcome(plugins, old, next, changed, removed)->Ok_0;
            &&& forall|h: int|
                next.chunks.len() <= h < c.chunks.len() ==> (#[trigger] c.chunks[h]).id != dead
            &&& forall|i: int|
                0 <= i < k.len() ==> !(#[trigger] k[i]).updated_chunk_ids.contains(dead)
                    && !k[i].removed_chunk_ids.contains(dead)
        }),
{
    let ids = persistent_chunk_ids(old);
    let runtimes = old.entry_runtime();
    lemma_dead_chunk_steps(
        plugins,
        next,
        fresh_contents(runtimes),
        runtimes,
        updated_in(old, next, changed, removed),
        ids,
        ids.len() as int,
        dead,
    );
    let (c, k) = diff_outcome(plugins, old, next, changed, removed)->Ok_0;
    assert forall|i: int| 0 <= i < k.len() implies !(#[trigger] k[i]).updated_chunk_ids.contains(
        dead,
    ) && !k[i].removed_chunk_ids.contains(dead) by {
        let fresh = fresh_contents(runtimes)[i];
        assert(fresh.updated_chunk_ids.len() == 0);
        assert(fresh.removed_chunk_ids.len() == 0);
    }
}

/// No two lasting chunks of a sound compilation have the same id.
pub proof fn lemma_persistent_ids_distinct(c: CompilationView)
    requires
        c.wf(),
    ensures
        persistent_chunk_ids(c).no_duplicates(),
{
    let lasting = |x: ChunkView| x.persistent();
    let kept = c.chunks.filter(lasting);
    let ids = persistent_chunk_ids(c);
    assert(c.chunks.no_duplicates()) by {
        assert forall|i: int, j: int|
            0 <= i < c.chunks.len() && 0 <= j < c.chunks.len() && i != j implies c.chunks[i]
            != c.chunks[j] by {
            assert(c.chunks[i].ukey == i);
            assert(c.chunks[j].ukey == j);
        }
    }
    crate::text::lemma_filter_no_duplicates(c.chunks, lasting);
    assert forall|i: int, j: int| 0 <= i < ids.len() && 0 <= j < ids.len() && i != j implies ids[i]
        != ids[j] by {
        let a = kept[i];
        let b = kept[j];
        assert(a != b);
        assert(kept.contains(a) && kept.contains(b));
        lemma_filter_contains(c.chunks, lasting, a);
        lemma_filter_contains(c.chunks, lasting, b);
        let p = choose|p: int| 0 <= p < c.chunks.len() && c.chunks[p] == a;
        let q = choose|q: int| 0 <= q < c.chunks.len() && c.chunks[q] == b;
        if p < q {
            assert(c.chunks[p].id != c.chunks[q].id);
        } else {
            assert(c.chunks[q].id != c.chunks[p].id);
        }
    }
}

/// The update chunks that the first `count` steps of a diff make carry ids
/// of the chunks those steps were for, and no two of them carry the same id.
proof fn lemma_update_chunks_distinct_steps<P: Plugin>(
    plugins: Seq<P>,
    next: CompilationView,
    contents: Seq<HotUpdateContentView>,
    runtimes: Seq<Seq<char>>,
    updated: Seq<Seq<char>>,
    chunk_ids: Seq<Seq<char>>,
    count: int,
)
    requires
        next.wf(),
        chunk_ids.no_duplicates(),
        0 <= count <= chunk_ids.len(),
        next.chunks.len() + count <= usize::MAX,
        chunk_steps(plugins, next, contents, runtimes, updated, chunk_ids, count) is Ok,
    ensures
        ({
            let (c, k) = chunk_steps(
                plugins,
                next,
                contents,
                runtimes,
                updated,
                chunk_ids,
                count,
            )->Ok_0;
            &&& forall|h: int|
                next.chunks.len() <= h < c.chunks.len() ==> chunk_ids.take(count).contains(
                    (#[trigger] c.chunks[h]).id,
                )
            &&& forall|g: int, h: int|
                next.chunks.len() <= g < h < c.chunks.len() ==> (#[trigger] c.chunks[g]).id != (
                #[trigger] c.chunks[h]).id
        }),
    decreases count,
{
    if count > 0 {
        lemma_wf_tracks(next);
        lemma_chunk_steps(plugins, next, contents, runtimes, updated, chunk_ids, count);
        lemma_chunk_steps(plugins, next, contents, runtimes, updated, chunk_ids, count - 1);
        lemma_update_chunks_distinct_steps(
            plugins,
            next,
            contents,
            runtimes,
            updated,
            chunk_ids,
            count - 1,
        );
        let (c1, k1) = chunk_steps(
            plugins,
            next,
            contents,
            runtimes,
            updated,
            chunk_ids,
            count - 1,
        )->Ok_0;
        let chunk_id = chunk_ids[count - 1];
        lemma_chunk_step(plugins, c1, k1, runtimes, updated, chunk_id);
        let (c, k) = chunk_step(plugins, c1, k1, runtimes, updated, chunk_id)->Ok_0;
        lemma_grown_find_chunk(next, c1, chunk_id);
        let seen = chunk_ids.take(count - 1);
        let now = chunk_ids.take(count);
        assert(now =~= seen.push(chunk_id));
        assert(now[count - 1] == chunk_id);
        assert forall|h: int| next.chunks.len() <= h < c.chunks.len() implies now.contains(
            (#[trigger] c.chunks[h]).id,
        ) by {
            if h < c1.chunks.len() {
                assert(c.chunks[h] == c1.chunks[h]);
                let w = choose|w: int| 0 <= w < seen.len() && seen[w] == c1.chunks[h].id;
                assert(now[w] == c1.chunks[h].id);
            } else {
                let found = c1.find_chunk(chunk_id)->Some_0;
                assert(next.is_persistent_chunk(found as int, chunk_id));
                assert(c1.chunks[found as int] == next.chunks[found as int]);
            }
        }
        assert forall|g: int, h: int| next.chunks.len() <= g < h < c.chunks.len() implies (
        #[trigger] c.chunks[g]).id != (#[trigger] c.chunks[h]).id by {
            assert(c.chunks[g] == c1.chunks[g]);
            if h < c1.chunks.len() {
                assert(c.chunks[h] == c1.chunks[h]);
            } else {
                let found = c1.find_chunk(chunk_id)->Some_0;
                assert(next.is_persistent_chunk(found as int, chunk_id));
                assert(c1.chunks[found as int] == next.chunks[found as int]);
                assert(c.chunks[h].id == chunk_id);
                if c1.chunks[g].id == chunk_id {
                    let w = choose|w: int| 0 <= w < seen.len() && seen[w] == c1.chunks[g].id;
                    assert(chunk_ids[w] == chunk_ids[count - 1]);
                }
            }
        }
    }
}

/// A rebuild makes at most one update chunk for each chunk of the old
/// build: the update chunks of a rebuild that succeeds carry ids of lasting
/// chunks of the old build, no two of them carry the same id, and there are
/// no more of them than the old build has lasting chunks.
pub proof fn lemma_one_update_chunk_per_chunk<P: Plugin>(
    plugins: Seq<P>,
    old: CompilationView,
    next: CompilationView,
    changed: Seq<Seq<char>>,
    removed: Seq<Seq<char>>,
)
    requires
        old.wf(),
        next.wf(),
        next.chunks.len() + persistent_chunk_ids(old).len() <= usize::MAX,
        hot_update(plugins, old, next, changed, removed) is Ok,
    ensures
        ({
            let result = hot_update(plugins, old, next, changed, removed)->Ok_0;
            &&& next.chunks.len() <= result.chunks.len() <= next.chunks.len()
                + persistent_chunk_ids(old).len()
            &&& forall|h: int|
                next.chunks.len() <= h < result.chunks.len() ==> (
                #[trigger] result.chunks[h]).kind == ChunkKind::HotUpdate
                    && persistent_chunk_ids(old).contains(result.chunks[h].id)
            &&& forall|g: int, h: int|
                next.chunks.len() <= g < h < result.chunks.len() ==> (
                #[trigger] result.chunks[g]).id != (#[trigger] result.chunks[h]).id
        }),
{
    let ids = persistent_chunk_ids(old);
    let runtimes = old.entry_runtime();
    if runtimes.len() > 0 {
        lemma_persistent_ids_distinct(old);
        lemma_wf_tracks(next);
        let updated = updated_in(old, next, changed, removed);
        lemma_chunk_steps(
            plugins,
            next,
            fresh_contents(runtimes),
            runtimes,
            updated,
            ids,
            ids.len() as int,
        );
        lemma_update_chunks_distinct_steps(
            plugins,
            next,
            fresh_contents(runtimes),
            runtimes,
            updated,
            ids,
            ids.len() as int,
        );
        assert(ids.take(ids.len() as int) =~= ids);
    }
}

} // verus!
