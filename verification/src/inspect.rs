//! What the `inspect` command reports of a document: a summary of its
//! contents, the node hierarchy of its default scene, its meshes with their
//! primitives, and the raw positions of one mesh.
use vstd::prelude::*;
use crate::schema::{Accessor, AccessorComponentType, AccessorType, Attribute, Gltf, Mesh, MeshPrimitive, MeshPrimitiveMode, Node, attributes_distinct, distinct_semantics, entries, entries_of};
use crate::export_context::opt_str;
use crate::mesh::lemma_take_step;
use crate::schema::BufferView;
use crate::decode::{read_u32, u32_at};
use crate::primitive::{find_attribute, get_attribute};
use crate::text::{decimal, push_decimal};
use vstd::string::StringExecFns;

verus! {

// ---- summary --------------------------------------------------------------------

/// The number of entries of each top-level array.
#[derive(Clone, Copy, Debug, PartialEq, Eq, Structural)]
pub struct GltfCounts {
    pub scenes: usize,
    pub nodes: usize,
    pub meshes: usize,
    pub accessors: usize,
    pub buffer_views: usize,
    pub buffers: usize,
    pub materials: usize,
    pub textures: usize,
    pub animations: usize,
    pub skins: usize,
}

fn count<T>(v: &Option<Vec<T>>) -> (r: usize)
    ensures
        r == entries(*v).len(),
{
    entries_of(v).len()
}

/// Count the entries of each top-level array (an absent array has none).
pub fn summary_counts(gltf: &Gltf) -> (r: GltfCounts)
    ensures
        r.scenes == entries(gltf.scenes).len(),
        r.nodes == entries(gltf.nodes).len(),
        r.meshes == entries(gltf.meshes).len(),
        r.accessors == entries(gltf.accessors).len(),
        r.buffer_views == entries(gltf.buffer_views).len(),
        r.buffers == entries(gltf.buffers).len(),
        r.materials == entries(gltf.materials).len(),
        r.textures == entries(gltf.textures).len(),
        r.animations == gltf.animation_count,
        r.skins == gltf.skin_count,
{
    GltfCounts {
        scenes: count(&gltf.scenes),
        nodes: count(&gltf.nodes),
        meshes: count(&gltf.meshes),
        accessors: count(&gltf.accessors),
        buffer_views: count(&gltf.buffer_views),
        buffers: count(&gltf.buffers),
        materials: count(&gltf.materials),
        textures: count(&gltf.textures),
        animations: gltf.animation_count,
        skins: gltf.skin_count,
    }
}

// ---- names of enumerations -----------------------------------------------------------

/// The glTF spelling of a primitive mode.
pub open spec fn mode_name(mode: MeshPrimitiveMode) -> Seq<char> {
    match mode {
        MeshPrimitiveMode::Points => "POINTS"@,
        MeshPrimitiveMode::Lines => "LINES"@,
        MeshPrimitiveMode::LineLoop => "LINE_LOOP"@,
        MeshPrimitiveMode::LineStrip => "LINE_STRIP"@,
        MeshPrimitiveMode::Triangles => "TRIANGLES"@,
        MeshPrimitiveMode::TriangleStrip => "TRIANGLE_STRIP"@,
        MeshPrimitiveMode::TriangleFan => "TRIANGLE_FAN"@,
    }
}

/// The glTF spelling of a primitive mode.
pub fn mode_str(mode: MeshPrimitiveMode) -> (r: &'static str)
    ensures
        r@ == mode_name(mode),
{
    match mode {
        MeshPrimitiveMode::Points => "POINTS",
        MeshPrimitiveMode::Lines => "LINES",
        MeshPrimitiveMode::LineLoop => "LINE_LOOP",
        MeshPrimitiveMode::LineStrip => "LINE_STRIP",
        MeshPrimitiveMode::Triangles => "TRIANGLES",
        MeshPrimitiveMode::TriangleStrip => "TRIANGLE_STRIP",
        MeshPrimitiveMode::TriangleFan => "TRIANGLE_FAN",
    }
}

/// The glTF spelling of an accessor type.
pub open spec fn accessor_type_name(t: AccessorType) -> Seq<char> {
    match t {
        AccessorType::Scalar => "SCALAR"@,
        AccessorType::Vec2 => "VEC2"@,
        AccessorType::Vec3 => "VEC3"@,
        AccessorType::Vec4 => "VEC4"@,
        AccessorType::Mat2 => "MAT2"@,
        AccessorType::Mat3 => "MAT3"@,
        AccessorType::Mat4 => "MAT4"@,
    }
}

/// The glTF spelling of an accessor type.
pub fn accessor_type_str(t: AccessorType) -> (r: &'static str)
    ensures
        r@ == accessor_type_name(t),
{
    match t {
        AccessorType::Scalar => "SCALAR",
        AccessorType::Vec2 => "VEC2",
        AccessorType::Vec3 => "VEC3",
        AccessorType::Vec4 => "VEC4",
        AccessorType::Mat2 => "MAT2",
        AccessorType::Mat3 => "MAT3",
        AccessorType::Mat4 => "MAT4",
    }
}

/// The glTF spelling of a component type.
pub open spec fn component_type_name(t: AccessorComponentType) -> Seq<char> {
    match t {
        AccessorComponentType::Byte => "BYTE"@,
        AccessorComponentType::UnsignedByte => "UNSIGNED_BYTE"@,
        AccessorComponentType::Short => "SHORT"@,
        AccessorComponentType::UnsignedShort => "UNSIGNED_SHORT"@,
        AccessorComponentType::UnsignedInt => "UNSIGNED_INT"@,
        AccessorComponentType::Float => "FLOAT"@,
    }
}

/// The glTF spelling of a component type.
pub fn component_type_str(t: AccessorComponentType) -> (r: &'static str)
    ensures
        r@ == component_type_name(t),
{
    match t {
        AccessorComponentType::Byte => "BYTE",
        AccessorComponentType::UnsignedByte => "UNSIGNED_BYTE",
        AccessorComponentType::Short => "SHORT",
        AccessorComponentType::UnsignedShort => "UNSIGNED_SHORT",
        AccessorComponentType::UnsignedInt => "UNSIGNED_INT",
        AccessorComponentType::Float => "FLOAT",
    }
}

// ---- node hierarchy ---------------------------------------------------------------------

/// The lines of the hierarchy below node `idx` at `depth`, depth first: the
/// node itself, then each child's subtree in order. A node index past the end
/// is skipped. Each level takes one unit of `fuel`; [`node_tree`] gives as
/// many units as there are nodes, the most levels that a hierarchy without a
/// cycle can have.
pub open spec fn walk(nodes: Seq<Node>, idx: nat, depth: nat, fuel: nat) -> Seq<(usize, usize)>
    decreases fuel, 0nat,
{
    if fuel == 0 || idx >= nodes.len() {
        Seq::empty()
    } else {
        seq![(idx as usize, depth as usize)]
            + walk_all(nodes, entries(nodes[idx as int].children), depth + 1, (fuel - 1) as nat)
    }
}

/// The lines of the subtrees of each node of `ids`, in order.
pub open spec fn walk_all(nodes: Seq<Node>, ids: Seq<u32>, depth: nat, fuel: nat) -> Seq<(usize, usize)>
    decreases fuel, ids.len(),
{
    if ids.len() == 0 {
        Seq::empty()
    } else {
        walk_all(nodes, ids.drop_last(), depth, fuel) + walk(nodes, ids.last() as nat, depth, fuel)
    }
}

/// The root nodes of the default scene (`scene`, or scene 0): none when that
/// scene does not exist or lists no nodes.
pub open spec fn tree_roots(gltf: Gltf) -> Seq<u32> {
    let idx: nat = match gltf.scene { Some(s) => s as nat, None => 0 };
    if idx < entries(gltf.scenes).len() { entries(entries(gltf.scenes)[idx as int].nodes) } else { Seq::empty() }
}

/// The hierarchy lines `(node index, depth)` of the whole default scene, or
/// `None` when the document has no `nodes` array.
pub open spec fn spec_node_tree(gltf: Gltf) -> Option<Seq<(usize, usize)>> {
    match gltf.nodes {
        None => None,
        Some(nodes) => Some(walk_all(nodes@, tree_roots(gltf), 0, nodes@.len())),
    }
}

/// `rank` strictly decreases from each node to each of its children that
/// exists: the hierarchy has no cycle.
pub open spec fn ranked(nodes: Seq<Node>, rank: spec_fn(nat) -> nat) -> bool {
    forall|i: int, k: int| 0 <= i < nodes.len() && 0 <= k < entries(nodes[i].children).len()
        && (entries(nodes[i].children)[k] as int) < nodes.len()
        ==> rank(#[trigger] entries(nodes[i].children)[k] as nat) < rank(i as nat)
}

/// More fuel than the rank of a node changes nothing of its walk.
pub proof fn lemma_walk_fuel(nodes: Seq<Node>, rank: spec_fn(nat) -> nat, idx: nat, depth: nat, f1: nat, f2: nat)
    requires
        ranked(nodes, rank),
        idx < nodes.len() ==> rank(idx) < f1 && rank(idx) < f2,
    ensures
        walk(nodes, idx, depth, f1) == walk(nodes, idx, depth, f2),
    decreases f1, 0nat,
{
    if idx < nodes.len() {
        let kids = entries(nodes[idx as int].children);
        assert forall|t: int| 0 <= t < kids.len() && (kids[t] as int) < nodes.len()
            implies rank(#[trigger] kids[t] as nat) < (f1 - 1) as nat && rank(kids[t] as nat) < (f2 - 1) as nat by {
            assert(rank(entries(nodes[idx as int].children)[t] as nat) < rank(idx));
        }
        lemma_walk_all_fuel(nodes, rank, kids, depth + 1, (f1 - 1) as nat, (f2 - 1) as nat);
    }
}

/// More fuel than the rank of each listed node changes nothing of their walks.
pub proof fn lemma_walk_all_fuel(nodes: Seq<Node>, rank: spec_fn(nat) -> nat, ids: Seq<u32>, depth: nat, f1: nat, f2: nat)
    requires
        ranked(nodes, rank),
        forall|t: int| 0 <= t < ids.len() && (ids[t] as int) < nodes.len()
            ==> rank(#[trigger] ids[t] as nat) < f1 && rank(ids[t] as nat) < f2,
    ensures
        walk_all(nodes, ids, depth, f1) == walk_all(nodes, ids, depth, f2),
    decreases f1, ids.len(),
{
    if ids.len() > 0 {
        let rest = ids.drop_last();
        assert forall|t: int| 0 <= t < rest.len() && (rest[t] as int) < nodes.len()
            implies rank(#[trigger] rest[t] as nat) < f1 && rank(rest[t] as nat) < f2 by {
            assert(rest[t] == ids[t]);
        }
        lemma_walk_all_fuel(nodes, rank, rest, depth, f1, f2);
        assert(ids.last() == ids[ids.len() - 1]);
        lemma_walk_fuel(nodes, rank, ids.last() as nat, depth, f1, f2);
    }
}

/// On a hierarchy without cycles, one unit of fuel per node is as good as
/// any more: the lines of [`node_tree`] are those of the unbounded
/// depth-first walk.
pub proof fn law_walk_fuel_suffices(gltf: Gltf, rank: spec_fn(nat) -> nat, fuel: nat)
    requires
        gltf.nodes is Some,
        ranked(entries(gltf.nodes), rank),
        forall|i: nat| i < entries(gltf.nodes).len() ==> #[trigger] rank(i) < entries(gltf.nodes).len(),
        fuel >= entries(gltf.nodes).len(),
    ensures
        spec_node_tree(gltf) == Some(walk_all(entries(gltf.nodes), tree_roots(gltf), 0, fuel)),
{
    let nodes = entries(gltf.nodes);
    lemma_walk_all_fuel(nodes, rank, tree_roots(gltf), 0, nodes.len(), fuel);
}

fn walk_node(nodes: &Vec<Node>, idx: usize, depth: usize, fuel: usize, out: &mut Vec<(usize, usize)>)
    requires
        depth + fuel <= nodes@.len(),
    ensures
        final(out)@ == old(out)@ + walk(nodes@, idx as nat, depth as nat, fuel as nat),
    decreases fuel, 0nat,
{
    if fuel == 0 || idx >= nodes.len() {
        assert(old(out)@ + walk(nodes@, idx as nat, depth as nat, fuel as nat) =~= old(out)@);
        return;
    }
    let ghost start = out@;
    let node_count = nodes.len();
    assert(depth + fuel <= node_count);
    out.push((idx, depth));
    let children = entries_of(&nodes[idx].children);
    let ghost kids = entries(nodes@[idx as int].children);
    let mut k: usize = 0;
    assert(kids.take(0) =~= Seq::<u32>::empty());
    while k < children.len()
        invariant
            k <= children@.len(),
            children@ == kids,
            kids == entries(nodes@[idx as int].children),
            depth + fuel <= nodes@.len(),
            nodes@.len() <= usize::MAX,
            0 < fuel,
            idx < nodes@.len(),
            out@ =~= start + seq![(idx, depth)] + walk_all(nodes@, kids.take(k as int), depth as nat + 1, (fuel - 1) as nat),
        decreases children@.len() - k,
    {
        let child = children[k];
        walk_node(nodes, child as usize, depth + 1, fuel - 1, out);
        proof {
            crate::mesh::lemma_take_step(kids, k as int);
        }
        k = k + 1;
    }
    assert(kids.take(kids.len() as int) =~= kids);
}

/// The node hierarchy of the default scene as `(node index, depth)` lines,
/// depth first from each root in order; `None` when the document has no nodes.
pub fn node_tree(gltf: &Gltf) -> (r: Option<Vec<(usize, usize)>>)
    ensures
        match spec_node_tree(*gltf) {
            None => r is None,
            Some(lines) => r matches Some(v) && v@ == lines,
        },
{
    let nodes = match &gltf.nodes {
        None => return None,
        Some(n) => n,
    };
    let scene_idx: usize = match gltf.scene {
        Some(s) => s as usize,
        None => 0,
    };
    let scenes = entries_of(&gltf.scenes);
    let roots: &[u32] = if scene_idx < scenes.len() { entries_of(&scenes[scene_idx].nodes) } else { &[] };
    assert(roots@ == tree_roots(*gltf));
    let mut out: Vec<(usize, usize)> = Vec::new();
    let mut k: usize = 0;
    assert(roots@.take(0) =~= Seq::<u32>::empty());
    while k < roots.len()
        invariant
            k <= roots@.len(),
            out@ =~= walk_all(nodes@, roots@.take(k as int), 0, nodes@.len()),
        decreases roots@.len() - k,
    {
        walk_node(nodes, roots[k] as usize, 0, nodes.len(), &mut out);
        proof {
            crate::mesh::lemma_take_step(roots@, k as int);
        }
        k = k + 1;
    }
    assert(roots@.take(roots@.len() as int) =~= roots@);
    Some(out)
}

/// Two spaces per level of depth.
pub open spec fn indent(depth: nat) -> Seq<char> {
    Seq::new(2 * depth, |i: int| ' ')
}

/// The first line printed for node `idx` at `depth`: the indentation, the
/// index and name (`<unnamed>` when it has none), and the mesh it carries.
pub open spec fn node_heading(node: Node, idx: nat, depth: nat) -> Seq<char> {
    indent(depth) + "node "@ + decimal(idx) + ": "@
        + match node.name { Some(n) => n@, None => "<unnamed>"@ }
        + match node.mesh { Some(k) => "  [mesh "@ + decimal(k as nat) + "]"@, None => Seq::empty() }
}

/// The first line printed for node `idx` at `depth`.
pub fn node_heading_line(node: &Node, idx: usize, depth: usize) -> (s: String)
    ensures
        s@ == node_heading(*node, idx as nat, depth as nat),
{
    let mut s = String::new();
    let mut d: usize = 0;
    while d < depth
        invariant
            d <= depth,
            s@ =~= indent(d as nat),
        decreases depth - d,
    {
        s.append("  ");
        proof {
            reveal_strlit("  ");
            assert(s@ =~= indent((d + 1) as nat));
        }
        d = d + 1;
    }
    s.append("node ");
    push_decimal(&mut s, idx);
    s.append(": ");
    match &node.name {
        Some(n) => s.append(n.as_str()),
        None => s.append("<unnamed>"),
    }
    match node.mesh {
        Some(k) => {
            s.append("  [mesh ");
            push_decimal(&mut s, k as usize);
            s.append("]");
        },
        None => {},
    }
    assert(s@ =~= node_heading(*node, idx as nat, depth as nat));
    s
}

// ---- text order ---------------------------------------------------------------------

/// `a` sorts before `b`: the first differing character is smaller, or `a` is
/// a proper prefix of `b` (the order of `str`).
pub open spec fn text_lt(a: Seq<char>, b: Seq<char>) -> bool
    decreases a.len(),
{
    if a.len() == 0 {
        b.len() > 0
    } else if b.len() == 0 {
        false
    } else if a[0] != b[0] {
        (a[0] as u32) < (b[0] as u32)
    } else {
        text_lt(a.drop_first(), b.drop_first())
    }
}

/// The order is transitive.
pub proof fn lemma_text_lt_trans(a: Seq<char>, b: Seq<char>, c: Seq<char>)
    requires
        text_lt(a, b),
        text_lt(b, c),
    ensures
        text_lt(a, c),
    decreases a.len(),
{
    if a.len() > 0 && b.len() > 0 && c.len() > 0 && a[0] == b[0] && b[0] == c[0] {
        lemma_text_lt_trans(a.drop_first(), b.drop_first(), c.drop_first());
    }
}

/// Nothing sorts before itself.
pub proof fn lemma_text_lt_irreflexive(a: Seq<char>)
    ensures
        !text_lt(a, a),
    decreases a.len(),
{
    if a.len() > 0 {
        lemma_text_lt_irreflexive(a.drop_first());
    }
}

/// Of two different texts one sorts before the other.
pub proof fn lemma_text_lt_total(a: Seq<char>, b: Seq<char>)
    requires
        a != b,
    ensures
        text_lt(a, b) || text_lt(b, a),
    decreases a.len(),
{
    if a.len() == 0 {
        assert(b.len() > 0) by {
            if b.len() == 0 {
                assert(a =~= b);
            }
        }
    } else if b.len() > 0 && a[0] == b[0] {
        if a.drop_first() == b.drop_first() {
            assert(a =~= seq![a[0]] + a.drop_first());
            assert(b =~= seq![b[0]] + b.drop_first());
        }
        lemma_text_lt_total(a.drop_first(), b.drop_first());
    } else if b.len() > 0 {
        vstd::utf8::char_u32_cast(a[0], a[0] as u32);
        vstd::utf8::char_u32_cast(b[0], b[0] as u32);
    }
}

/// Whether `a` sorts before `b`.
pub fn str_lt(a: &str, b: &str) -> (r: bool)
    ensures
        r == text_lt(a@, b@),
{
    let la = a.unicode_len();
    let lb = b.unicode_len();
    let mut i: usize = 0;
    assert(a@.skip(0) =~= a@ && b@.skip(0) =~= b@);
    while i < la && i < lb
        invariant
            la == a@.len(),
            lb == b@.len(),
            i <= la,
            i <= lb,
            text_lt(a@, b@) == text_lt(a@.skip(i as int), b@.skip(i as int)),
        decreases la - i,
    {
        let ca = a.get_char(i);
        let cb = b.get_char(i);
        assert(a@.skip(i as int)[0] == ca && b@.skip(i as int)[0] == cb);
        if ca != cb {
            return (ca as u32) < (cb as u32);
        }
        assert(a@.skip(i as int).drop_first() =~= a@.skip(i + 1));
        assert(b@.skip(i as int).drop_first() =~= b@.skip(i + 1));
        i = i + 1;
    }
    i < lb
}

// ---- mesh report ----------------------------------------------------------------------

/// What a report shows of an accessor that exists.
#[derive(Clone, Copy, Debug, PartialEq, Eq, Structural)]
pub struct AccessorInfo {
    pub accessor_type: AccessorType,
    pub component_type: AccessorComponentType,
    pub count: u32,
}

/// An accessor index, with what the accessor holds when it is in range.
#[derive(Clone, Copy, Debug, PartialEq, Eq, Structural)]
pub struct AccessorRef {
    pub index: u32,
    pub info: Option<AccessorInfo>,
}

/// One attribute of a primitive.
pub struct AttributeLine {
    pub semantic: String,
    pub accessor: AccessorRef,
}

/// One primitive: its mode, its index accessor, and its attributes sorted by name.
pub struct PrimitiveReport {
    pub mode: MeshPrimitiveMode,
    pub indices: Option<AccessorRef>,
    pub attributes: Vec<AttributeLine>,
}

/// One mesh: its name and its primitives.
pub struct MeshReport {
    pub name: Option<String>,
    pub primitives: Vec<PrimitiveReport>,
}

/// The report of accessor `id`.
pub open spec fn spec_accessor_ref(id: u32, accessors: Seq<Accessor>) -> AccessorRef {
    AccessorRef {
        index: id,
        info: if (id as int) < accessors.len() {
            let a = accessors[id as int];
            Some(AccessorInfo { accessor_type: a.accessor_type, component_type: a.component_type, count: a.count })
        } else {
            None
        },
    }
}

/// The line of an attribute.
pub open spec fn spec_attribute_line(a: Attribute, accessors: Seq<Accessor>) -> (Seq<char>, AccessorRef) {
    (a.semantic@, spec_accessor_ref(a.accessor, accessors))
}

/// The name and accessor of each line.
pub open spec fn line_views(lines: Seq<AttributeLine>) -> Seq<(Seq<char>, AccessorRef)> {
    lines.map_values(|l: AttributeLine| (l.semantic@, l.accessor))
}

/// Each line's name sorts strictly before every later line's name, so no
/// name occurs twice.
pub open spec fn sorted_by_name(lines: Seq<(Seq<char>, AccessorRef)>) -> bool {
    forall|i: int, j: int| 0 <= i < j < lines.len() ==> text_lt(#[trigger] lines[i].0, #[trigger] lines[j].0)
}

/// The report of a primitive is right: same mode, the index accessor's report,
/// and one line per attribute, in strictly ascending name order.
pub open spec fn primitive_report_matches(r: PrimitiveReport, prim: MeshPrimitive, accessors: Seq<Accessor>) -> bool {
    &&& r.mode == prim.mode
    &&& r.indices == match prim.indices { Some(id) => Some(spec_accessor_ref(id, accessors)), None => None }
    &&& sorted_by_name(line_views(r.attributes@))
    &&& line_views(r.attributes@).to_multiset()
        == prim.attributes@.map_values(|a: Attribute| spec_attribute_line(a, accessors)).to_multiset()
}

/// The report of a mesh is right.
pub open spec fn mesh_report_matches(r: MeshReport, mesh: Mesh, accessors: Seq<Accessor>) -> bool {
    &&& opt_str(r.name) == opt_str(mesh.name)
    &&& r.primitives@.len() == mesh.primitives@.len()
    &&& forall|p: int| 0 <= p < mesh.primitives@.len()
        ==> primitive_report_matches(#[trigger] r.primitives@[p], mesh.primitives@[p], accessors)
}

fn accessor_ref(id: u32, accessors: &[Accessor]) -> (r: AccessorRef)
    ensures
        r == spec_accessor_ref(id, accessors@),
{
    let info = if (id as usize) < accessors.len() {
        let a = &accessors[id as usize];
        Some(AccessorInfo { accessor_type: a.accessor_type, component_type: a.component_type, count: a.count })
    } else {
        None
    };
    AccessorRef { index: id, info }
}

/// The first line whose name sorts after `key` (the number of lines when none does).
fn insert_position(lines: &Vec<AttributeLine>, key: &String) -> (p: usize)
    ensures
        p <= lines@.len(),
        forall|i: int| 0 <= i < p ==> !text_lt(key@, #[trigger] lines@[i].semantic@),
        p < lines@.len() ==> text_lt(key@, lines@[p as int].semantic@),
{
    let mut p: usize = 0;
    while p < lines.len()
        invariant
            p <= lines@.len(),
            forall|i: int| 0 <= i < p ==> !text_lt(key@, #[trigger] lines@[i].semantic@),
        decreases lines@.len() - p,
    {
        if str_lt(key.as_str(), lines[p].semantic.as_str()) {
            return p;
        }
        p = p + 1;
    }
    p
}

/// Insert `line` before the first line whose name sorts after its name; no
/// line has its name yet.
fn insert_sorted(lines: &mut Vec<AttributeLine>, line: AttributeLine)
    requires
        sorted_by_name(line_views(old(lines)@)),
        forall|i: int| 0 <= i < old(lines)@.len() ==> (#[trigger] old(lines)@[i]).semantic@ != line.semantic@,
    ensures
        sorted_by_name(line_views(final(lines)@)),
        line_views(final(lines)@).to_multiset() == line_views(old(lines)@).to_multiset().insert((line.semantic@, line.accessor)),
{
    let ghost before = line_views(lines@);
    let ghost x = (line.semantic@, line.accessor);
    let p = insert_position(lines, &line.semantic);
    assert(p < before.len() ==> before[p as int] == (lines@[p as int].semantic@, lines@[p as int].accessor));
    assert(forall|i: int| 0 <= i < before.len() ==> before[i] == (#[trigger] lines@[i].semantic@, lines@[i].accessor));
    lines.insert(p, line);
    let ghost after = line_views(lines@);
    assert(after =~= before.insert(p as int, x));
    proof {
        vstd::seq_lib::to_multiset_insert(before, p as int, x);
        assert forall|i: int, j: int| 0 <= i < j < after.len() implies text_lt(#[trigger] after[i].0, #[trigger] after[j].0) by {
            if j == p {
                assert(!text_lt(x.0, old(lines)@[i].semantic@));
                assert(before[i].0 != x.0);
                lemma_text_lt_total(before[i].0, x.0);
            } else if i == p {
                if j - 1 > p {
                    assert(text_lt(before[p as int].0, before[j - 1].0));
                    lemma_text_lt_trans(x.0, before[p as int].0, before[j - 1].0);
                }
            } else {
                let bi = if i < p { before[i] } else { before[i - 1] };
                let bj = if j < p { before[j] } else { before[j - 1] };
                assert(after[i] == bi && after[j] == bj);
            }
        }
    }
}

/// The report of one primitive.
pub fn primitive_report(prim: &MeshPrimitive, accessors: &[Accessor]) -> (r: PrimitiveReport)
    requires
        distinct_semantics(prim.attributes@),
    ensures
        primitive_report_matches(r, *prim, accessors@),
{
    let indices = match prim.indices {
        Some(id) => Some(accessor_ref(id, accessors)),
        None => None,
    };
    let ghost src = prim.attributes@.map_values(|a: Attribute| spec_attribute_line(a, accessors@));
    let mut lines: Vec<AttributeLine> = Vec::new();
    let mut k: usize = 0;
    assert(line_views(lines@) =~= Seq::empty());
    assert(src.take(0) =~= Seq::empty());
    while k < prim.attributes.len()
        invariant
            k <= prim.attributes@.len(),
            src == prim.attributes@.map_values(|a: Attribute| spec_attribute_line(a, accessors@)),
            distinct_semantics(prim.attributes@),
            sorted_by_name(line_views(lines@)),
            line_views(lines@).to_multiset() == src.take(k as int).to_multiset(),
        decreases prim.attributes@.len() - k,
    {
        let a = &prim.attributes[k];
        let line = AttributeLine { semantic: a.semantic.clone(), accessor: accessor_ref(a.accessor, accessors) };
        assert((line.semantic@, line.accessor) == src[k as int]);
        proof {
            assert forall|i: int| 0 <= i < lines@.len() implies (#[trigger] lines@[i]).semantic@ != line.semantic@ by {
                let v = line_views(lines@)[i];
                vstd::seq_lib::to_multiset_contains(line_views(lines@), v);
                vstd::seq_lib::to_multiset_contains(src.take(k as int), v);
                let t = choose|t: int| 0 <= t < k && src.take(k as int)[t] == v;
                assert(src[t].0 == prim.attributes@[t].semantic@);
            }
        }
        insert_sorted(&mut lines, line);
        proof {
            assert(src.take(k + 1) =~= src.take(k as int).push(src[k as int]));
            vstd::seq_lib::to_multiset_build(src.take(k as int), src[k as int]);
        }
        k = k + 1;
    }
    assert(src.take(src.len() as int) =~= src);
    PrimitiveReport { mode: prim.mode, indices, attributes: lines }
}

/// The report of every mesh, or `None` when the document has no meshes array.
/// No primitive may name an attribute twice (see [`crate::schema::has_distinct_attributes`]).
pub fn mesh_reports(gltf: &Gltf) -> (r: Option<Vec<MeshReport>>)
    requires
        attributes_distinct(*gltf),
    ensures
        match gltf.meshes {
            None => r is None,
            Some(meshes) => r matches Some(v) && v@.len() == meshes@.len()
                && forall|m: int| 0 <= m < meshes@.len()
                    ==> mesh_report_matches(#[trigger] v@[m], meshes@[m], entries(gltf.accessors)),
        },
{
    let meshes = match &gltf.meshes {
        None => return None,
        Some(m) => m,
    };
    let accessors = entries_of(&gltf.accessors);
    let mut out: Vec<MeshReport> = Vec::new();
    let mut m: usize = 0;
    while m < meshes.len()
        invariant
            m <= meshes@.len(),
            accessors@ == entries(gltf.accessors),
            gltf.meshes == Some(*meshes),
            attributes_distinct(*gltf),
            out@.len() == m,
            forall|t: int| 0 <= t < m ==> mesh_report_matches(#[trigger] out@[t], meshes@[t], accessors@),
        decreases meshes@.len() - m,
    {
        let mesh = &meshes[m];
        assert(forall|t: int| 0 <= t < mesh.primitives@.len() ==> distinct_semantics((#[trigger] mesh.primitives@[t]).attributes@)) by {
            assert(entries(gltf.meshes)[m as int] == *mesh);
        }
        let mut prims: Vec<PrimitiveReport> = Vec::new();
        let mut p: usize = 0;
        while p < mesh.primitives.len()
            invariant
                p <= mesh.primitives@.len(),
                prims@.len() == p,
                forall|t: int| 0 <= t < mesh.primitives@.len() ==> distinct_semantics((#[trigger] mesh.primitives@[t]).attributes@),
                forall|t: int| 0 <= t < p ==> primitive_report_matches(#[trigger] prims@[t], mesh.primitives@[t], accessors@),
            decreases mesh.primitives@.len() - p,
        {
            prims.push(primitive_report(&mesh.primitives[p], accessors));
            p = p + 1;
        }
        let name = match &mesh.name {
            Some(n) => Some(n.clone()),
            None => None,
        };
        out.push(MeshReport { name, primitives: prims });
        m = m + 1;
    }
    Some(out)
}

// ---- raw vertex dump -------------------------------------------------------------------

/// What the dump shows of one primitive's positions.
pub enum PrimitiveDump {
    /// The primitive has no `POSITION` attribute.
    NoPosition,
    /// The `POSITION` accessor index is out of range.
    AccessorOutOfRange { accessor: u32 },
    /// The `POSITION` accessor is not `VEC3`/`FLOAT`.
    NotVec3Float,
    /// The accessor has no buffer view.
    NoBufferView,
    /// The buffer view index is out of range.
    BufferViewOutOfRange { buffer_view: u32 },
    /// The buffer index is out of range.
    BufferOutOfRange { buffer: u32 },
    /// The positions: each vertex's `[x, y, z]` (float bits) read at the view's
    /// stride, or `None` where it lies past the end of the buffer.
    Vertices { count: u32, accessor: u32, buffer_view: u32, stride: u32, vertices: Vec<Option<[u32; 3]>> },
}

/// The contents of a [`PrimitiveDump`].
pub enum PrimitiveDumpView {
    NoPosition,
    AccessorOutOfRange { accessor: u32 },
    NotVec3Float,
    NoBufferView,
    BufferViewOutOfRange { buffer_view: u32 },
    BufferOutOfRange { buffer: u32 },
    Vertices { count: u32, accessor: u32, buffer_view: u32, stride: u32, vertices: Seq<Option<[u32; 3]>> },
}

impl View for PrimitiveDump {
    type V = PrimitiveDumpView;

    open spec fn view(&self) -> PrimitiveDumpView {
        match self {
            PrimitiveDump::NoPosition => PrimitiveDumpView::NoPosition,
            PrimitiveDump::AccessorOutOfRange { accessor } => PrimitiveDumpView::AccessorOutOfRange { accessor: *accessor },
            PrimitiveDump::NotVec3Float => PrimitiveDumpView::NotVec3Float,
            PrimitiveDump::NoBufferView => PrimitiveDumpView::NoBufferView,
            PrimitiveDump::BufferViewOutOfRange { buffer_view } => PrimitiveDumpView::BufferViewOutOfRange { buffer_view: *buffer_view },
            PrimitiveDump::BufferOutOfRange { buffer } => PrimitiveDumpView::BufferOutOfRange { buffer: *buffer },
            PrimitiveDump::Vertices { count, accessor, buffer_view, stride, vertices } => PrimitiveDumpView::Vertices {
                count: *count,
                accessor: *accessor,
                buffer_view: *buffer_view,
                stride: *stride,
                vertices: vertices@,
            },
        }
    }
}

/// The dump of one mesh.
pub struct MeshDump {
    pub name: Option<String>,
    pub primitives: Vec<PrimitiveDump>,
}

/// Vertex `i`: the three floats at `base + i * stride`, when they lie inside `buf`.
pub open spec fn dumped_vertex(buf: Seq<u8>, base: nat, stride: nat, i: nat) -> Option<[u32; 3]> {
    let start = base + i * stride;
    if start + 12 > buf.len() {
        None
    } else {
        Some([u32_at(buf, start as int), u32_at(buf, start as int + 4), u32_at(buf, start as int + 8)])
    }
}

/// What the dump shows of a primitive, with the checks made in order.
pub open spec fn spec_dump_primitive(
    prim: MeshPrimitive,
    accessors: Seq<Accessor>,
    buffer_views: Seq<BufferView>,
    buffers: Seq<Vec<u8>>,
) -> PrimitiveDumpView {
    match find_attribute(prim.attributes@, "POSITION"@) {
        None => PrimitiveDumpView::NoPosition,
        Some(id) => if id >= accessors.len() {
            PrimitiveDumpView::AccessorOutOfRange { accessor: id }
        } else {
            let acc = accessors[id as int];
            if acc.accessor_type != AccessorType::Vec3 || acc.component_type != AccessorComponentType::Float {
                PrimitiveDumpView::NotVec3Float
            } else {
                match acc.buffer_view {
                    None => PrimitiveDumpView::NoBufferView,
                    Some(bvi) => if bvi >= buffer_views.len() {
                        PrimitiveDumpView::BufferViewOutOfRange { buffer_view: bvi }
                    } else {
                        let bv = buffer_views[bvi as int];
                        if bv.buffer >= buffers.len() {
                            PrimitiveDumpView::BufferOutOfRange { buffer: bv.buffer }
                        } else {
                            let stride: u32 = match bv.byte_stride { Some(s) => s, None => 12 };
                            let base: nat = bv.byte_offset as nat + match acc.byte_offset { Some(o) => o as nat, None => 0 };
                            PrimitiveDumpView::Vertices {
                                count: acc.count,
                                accessor: id,
                                buffer_view: bvi,
                                stride,
                                vertices: Seq::new(acc.count as nat, |i: int| dumped_vertex(buffers[bv.buffer as int]@, base, stride as nat, i as nat)),
                            }
                        }
                    },
                }
            }
        },
    }
}

fn read_vertex(buf: &Vec<u8>, base: u64, stride: u32, i: u32) -> (r: Option<[u32; 3]>)
    ensures
        r == dumped_vertex(buf@, base as nat, stride as nat, i as nat),
{
    assert(i as u128 * stride as u128 <= 0xFFFF_FFFFu128 * 0xFFFF_FFFFu128) by (nonlinear_arith)
        requires i <= 0xFFFF_FFFFu32, stride <= 0xFFFF_FFFFu32;
    let start: u128 = base as u128 + i as u128 * stride as u128;
    if start + 12 > buf.len() as u128 {
        return None;
    }
    let k = start as usize;
    Some([read_u32(buf.as_slice(), k), read_u32(buf.as_slice(), k + 4), read_u32(buf.as_slice(), k + 8)])
}

/// Dump the positions of one primitive.
pub fn dump_primitive(
    prim: &MeshPrimitive,
    accessors: &[Accessor],
    buffer_views: &[BufferView],
    buffers: &[Vec<u8>],
) -> (r: PrimitiveDump)
    ensures
        r@ == spec_dump_primitive(*prim, accessors@, buffer_views@, buffers@),
{
    let pos_name = "POSITION".to_owned();
    let id = match get_attribute(&prim.attributes, &pos_name) {
        None => return PrimitiveDump::NoPosition,
        Some(id) => id,
    };
    if id as usize >= accessors.len() {
        return PrimitiveDump::AccessorOutOfRange { accessor: id };
    }
    let acc = &accessors[id as usize];
    if acc.accessor_type != AccessorType::Vec3 || acc.component_type != AccessorComponentType::Float {
        return PrimitiveDump::NotVec3Float;
    }
    let bvi = match acc.buffer_view {
        None => return PrimitiveDump::NoBufferView,
        Some(i) => i,
    };
    if bvi as usize >= buffer_views.len() {
        return PrimitiveDump::BufferViewOutOfRange { buffer_view: bvi };
    }
    let bv = &buffer_views[bvi as usize];
    if bv.buffer as usize >= buffers.len() {
        return PrimitiveDump::BufferOutOfRange { buffer: bv.buffer };
    }
    let buf = &buffers[bv.buffer as usize];
    let stride: u32 = match bv.byte_stride {
        Some(s) => s,
        None => 12,
    };
    let base: u64 = bv.byte_offset as u64 + match acc.byte_offset {
        Some(o) => o as u64,
        None => 0,
    };
    let ghost bufv = buffers@[bv.buffer as int]@;
    let mut vertices: Vec<Option<[u32; 3]>> = Vec::new();
    let mut i: u32 = 0;
    while i < acc.count
        invariant
            i <= acc.count,
            bufv == buf@,
            vertices@ =~= Seq::new(i as nat, |t: int| dumped_vertex(bufv, base as nat, stride as nat, t as nat)),
        decreases acc.count - i,
    {
        vertices.push(read_vertex(buf, base, stride, i));
        i = i + 1;
    }
    PrimitiveDump::Vertices { count: acc.count, accessor: id, buffer_view: bvi, stride, vertices }
}

/// A dumped primitive shows its `POSITION` accessor and that accessor's
/// buffer view, and vertex `i` is the three little-endian floats that start
/// `i` strides past the view's offset plus the accessor's offset in the view's
/// buffer (the stride is the view's, or 12 when it gives none); a vertex whose
/// 12 bytes run past the end of the buffer is shown as missing.
pub proof fn law_dump_reads_at_offsets(
    prim: MeshPrimitive,
    accessors: Seq<Accessor>,
    buffer_views: Seq<BufferView>,
    buffers: Seq<Vec<u8>>,
)
    ensures
        match spec_dump_primitive(prim, accessors, buffer_views, buffers) {
            PrimitiveDumpView::Vertices { count, accessor, buffer_view, stride, vertices } => {
                let acc = accessors[accessor as int];
                let bv = buffer_views[buffer_view as int];
                let buf = buffers[bv.buffer as int]@;
                let base: int = bv.byte_offset as int + match acc.byte_offset { Some(o) => o as int, None => 0 };
                &&& find_attribute(prim.attributes@, "POSITION"@) == Some(accessor)
                &&& (accessor as int) < accessors.len()
                &&& acc.buffer_view == Some(buffer_view)
                &&& (buffer_view as int) < buffer_views.len()
                &&& (bv.buffer as int) < buffers.len()
                &&& count == acc.count
                &&& stride == match bv.byte_stride { Some(s) => s, None => 12u32 }
                &&& vertices.len() == count
                &&& forall|i: int| 0 <= i < count ==> #[trigger] vertices[i] == if base + i * stride + 12 <= buf.len() {
                    Some([u32_at(buf, base + i * stride), u32_at(buf, base + i * stride + 4), u32_at(buf, base + i * stride + 8)])
                } else {
                    None
                }
            },
            _ => true,
        },
{
}

/// Where the positions are tightly packed (no stride, or a stride of 12) and
/// the accessor resolves, the dump shows every vertex, and vertex `i` is the
/// three floats at bytes `12 i ..` of what [`crate::resolve::resolve_accessor`]
/// returns for the accessor.
pub proof fn law_dump_agrees_with_resolve(
    prim: MeshPrimitive,
    accessors: Seq<Accessor>,
    buffer_views: Seq<BufferView>,
    buffers: Seq<Vec<u8>>,
    id: u32,
    bytes: Seq<u8>,
)
    requires
        find_attribute(prim.attributes@, "POSITION"@) == Some(id),
        (id as int) < accessors.len(),
        accessors[id as int].accessor_type == AccessorType::Vec3,
        accessors[id as int].component_type == AccessorComponentType::Float,
        crate::resolve::spec_resolve_accessor(accessors[id as int], buffer_views, buffers) == Ok::<Seq<u8>, crate::resolve::ResolveError>(bytes),
        match accessors[id as int].buffer_view {
            Some(bvi) => (bvi as int) < buffer_views.len() && match buffer_views[bvi as int].byte_stride {
                Some(s) => s == 12,
                None => true,
            },
            None => true,
        },
    ensures
        match spec_dump_primitive(prim, accessors, buffer_views, buffers) {
            PrimitiveDumpView::Vertices { count, vertices, .. } => {
                &&& vertices.len() == count
                &&& count == accessors[id as int].count
                &&& forall|i: int| 0 <= i < count ==> #[trigger] vertices[i]
                    == Some([u32_at(bytes, 12 * i), u32_at(bytes, 12 * i + 4), u32_at(bytes, 12 * i + 8)])
            },
            _ => false,
        },
{
    let acc = accessors[id as int];
    let bvi = acc.buffer_view->0;
    let bv = buffer_views[bvi as int];
    let buf = buffers[bv.buffer as int]@;
    let start = crate::resolve::accessor_start(acc, bv);
    let end = crate::resolve::accessor_end(acc, bv);
    assert(crate::resolve::element_size(acc) == 12);
    assert(bytes == buf.subrange(start as int, end as int));
    let d = spec_dump_primitive(prim, accessors, buffer_views, buffers);
    assert(d is Vertices);
    assert forall|i: int| 0 <= i < acc.count implies #[trigger] d->vertices[i]
        == Some([u32_at(bytes, 12 * i), u32_at(bytes, 12 * i + 4), u32_at(bytes, 12 * i + 8)]) by {
        assert(12 * i + 12 <= 12 * acc.count) by (nonlinear_arith)
            requires 0 <= i < acc.count;
        assert(end == start + acc.count * 12);
        assert(dumped_vertex(buf, start, 12, i as nat)
            == Some([u32_at(buf, start + 12 * i), u32_at(buf, start + 12 * i + 4), u32_at(buf, start + 12 * i + 8)]));
        assert(bytes.len() == end - start);
        assert forall|t: int| 0 <= t < 12 implies bytes[12 * i + t] == #[trigger] buf[start + 12 * i + t] by {}
    }
}

/// Dump the positions of every primitive of mesh `mesh_idx`, or `None` when
/// there is no such mesh.
pub fn dump_mesh_verts(gltf: &Gltf, buffers: &[Vec<u8>], mesh_idx: usize) -> (r: Option<MeshDump>)
    ensures
        (mesh_idx as int) < entries(gltf.meshes).len() <==> r is Some,
        r matches Some(d) ==> {
            let mesh = entries(gltf.meshes)[mesh_idx as int];
            &&& opt_str(d.name) == opt_str(mesh.name)
            &&& d.primitives@.len() == mesh.primitives@.len()
            &&& forall|p: int| 0 <= p < mesh.primitives@.len() ==> (#[trigger] d.primitives@[p])@
                == spec_dump_primitive(mesh.primitives@[p], entries(gltf.accessors), entries(gltf.buffer_views), buffers@)
        },
{
    let meshes = entries_of(&gltf.meshes);
    if mesh_idx >= meshes.len() {
        return None;
    }
    let mesh = &meshes[mesh_idx];
    let accessors = entries_of(&gltf.accessors);
    let views = entries_of(&gltf.buffer_views);
    let mut prims: Vec<PrimitiveDump> = Vec::new();
    let mut p: usize = 0;
    while p < mesh.primitives.len()
        invariant
            p <= mesh.primitives@.len(),
            accessors@ == entries(gltf.accessors),
            views@ == entries(gltf.buffer_views),
            prims@.len() == p,
            forall|t: int| 0 <= t < p ==> (#[trigger] prims@[t])@
                == spec_dump_primitive(mesh.primitives@[t], accessors@, views@, buffers@),
        decreases mesh.primitives@.len() - p,
    {
        prims.push(dump_primitive(&mesh.primitives[p], accessors, views, buffers));
        p = p + 1;
    }
    let name = match &mesh.name {
        Some(n) => Some(n.clone()),
        None => None,
    };
    Some(MeshDump { name, primitives: prims })
}

} // verus!
