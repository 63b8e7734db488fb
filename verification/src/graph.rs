//! Association graph (RedisGraph) requests and the GraphML export.
//!
//! The vector store is the source of truth for memory payloads; the graph
//! holds the weighted associations between memories for traversal and
//! visualization. This module writes the Cypher statements sent to the
//! graph and the GraphML document built from what it returns. Weights are
//! written as the caller's decimal text of them.
use vstd::prelude::*;
use crate::api::handlers::{decimal_text, usize_to_decimal};
use crate::cognition::types::uuid_hyphenated;
use crate::memory_db::types::{AssociationType, MemoryId, association_type_name};

verus! {

// ---------------------------------------------------------------------------
// Cypher statements
// ---------------------------------------------------------------------------

/// The statement that merges both memory nodes and the typed association
/// between them, then sets its weight.
pub open spec fn merge_edge_text(
    source: Seq<char>,
    target: Seq<char>,
    kind_name: Seq<char>,
    weight: Seq<char>,
) -> Seq<char> {
    "MERGE (a:Memory {id: '"@ + source + "'}) MERGE (b:Memory {id: '"@ + target
        + "'}) MERGE (a)-[r:ASSOCIATED {type: '"@ + kind_name + "'}]->(b) SET r.weight = "@
        + weight
}

/// The match for associations of at least `weight` leaving memory `id`.
pub open spec fn outgoing_match_text(id: Seq<char>, weight: Seq<char>) -> Seq<char> {
    "MATCH (a:Memory {id: '"@ + id + "'})-[r:ASSOCIATED]->(b:Memory) WHERE r.weight >= "@
        + weight + " RETURN b.id, r.weight"@
}

/// The match for associations of at least `weight` reaching memory `id`.
pub open spec fn incoming_match_text(id: Seq<char>, weight: Seq<char>) -> Seq<char> {
    "MATCH (a:Memory {id: '"@ + id + "'})<-[r:ASSOCIATED]-(b:Memory) WHERE r.weight >= "@
        + weight + " RETURN b.id, r.weight"@
}

/// The neighbor query: outgoing associations, and incoming ones too when
/// `bidirectional`, joined by `UNION`.
pub open spec fn neighbors_query_text(id: Seq<char>, weight: Seq<char>, bidirectional: bool) -> Seq<
    char,
> {
    if bidirectional {
        outgoing_match_text(id, weight) + " UNION "@ + incoming_match_text(id, weight)
    } else {
        outgoing_match_text(id, weight)
    }
}

/// The statement that records an association of type `assoc_type` from
/// `source` to `target` with the given weight text
pub fn merge_edge_query(
    source: MemoryId,
    target: MemoryId,
    assoc_type: AssociationType,
    weight: &str,
) -> (q: String)
    ensures
        q@ == merge_edge_text(
            uuid_hyphenated(source.0),
            uuid_hyphenated(target.0),
            association_type_name(assoc_type),
            weight@,
        ),
{
    let source_text = source.to_string();
    let target_text = target.to_string();
    let mut q = String::from_str("MERGE (a:Memory {id: '");
    q.append(source_text.as_str());
    q.append("'}) MERGE (b:Memory {id: '");
    q.append(target_text.as_str());
    q.append("'}) MERGE (a)-[r:ASSOCIATED {type: '");
    q.append(assoc_type.name());
    q.append("'}]->(b) SET r.weight = ");
    q.append(weight);
    q
}

/// One match clause: `MATCH (a:Memory {id: '..'})` then the given arrow.
fn match_clause(id: &str, arrow: &str, weight: &str) -> (q: String)
    ensures
        q@ == "MATCH (a:Memory {id: '"@ + id@ + "'})"@ + arrow@ + "(b:Memory) WHERE r.weight >= "@
            + weight@ + " RETURN b.id, r.weight"@,
{
    let mut q = String::from_str("MATCH (a:Memory {id: '");
    q.append(id);
    q.append("'})");
    q.append(arrow);
    q.append("(b:Memory) WHERE r.weight >= ");
    q.append(weight);
    q.append(" RETURN b.id, r.weight");
    q
}

/// The query for the neighbors of `memory_id` whose association weight is
/// at least the given weight text: outgoing associations, and incoming ones
/// too when `bidirectional`
pub fn neighbors_query(memory_id: MemoryId, min_weight: &str, bidirectional: bool) -> (q: String)
    ensures
        q@ == neighbors_query_text(uuid_hyphenated(memory_id.0), min_weight@, bidirectional),
{
    let id_text = memory_id.to_string();
    let out = match_clause(id_text.as_str(), "-[r:ASSOCIATED]->", min_weight);
    proof {
        reveal_strlit("-[r:ASSOCIATED]->");
        reveal_strlit("'})");
        reveal_strlit("'})-[r:ASSOCIATED]->(b:Memory) WHERE r.weight >= ");
        reveal_strlit("(b:Memory) WHERE r.weight >= ");
        assert(out@ =~= outgoing_match_text(id_text@, min_weight@));
    }
    if !bidirectional {
        return out;
    }
    let inc = match_clause(id_text.as_str(), "<-[r:ASSOCIATED]-", min_weight);
    proof {
        reveal_strlit("<-[r:ASSOCIATED]-");
        reveal_strlit("'})<-[r:ASSOCIATED]-(b:Memory) WHERE r.weight >= ");
        assert(inc@ =~= incoming_match_text(id_text@, min_weight@));
    }
    let mut q = out;
    q.append(" UNION ");
    q.append(inc.as_str());
    q
}

// ---------------------------------------------------------------------------
// GraphML export
// ---------------------------------------------------------------------------

/// Everything before the first node: XML declaration, the `graphml` root,
/// the two edge attribute keys, and the opening `graph` element.
pub const GRAPHML_HEADER: &'static str = "<?xml version=\"1.0\" encoding=\"UTF-8\"?>\n<graphml xmlns=\"http://graphml.graphdrawing.org/xmlns\"\n         xmlns:xsi=\"http://www.w3.org/2001/XMLSchema-instance\"\n         xsi:schemaLocation=\"http://graphml.graphdrawing.org/xmlns\n         http://graphml.graphdrawing.org/xmlns/1.0/graphml.xsd\">\n  <key id=\"weight\" for=\"edge\" attr.name=\"weight\" attr.type=\"double\"/>\n  <key id=\"type\" for=\"edge\" attr.name=\"type\" attr.type=\"string\"/>\n  <graph id=\"daneel\" edgedefault=\"directed\">\n";

/// Everything after the last edge.
pub const GRAPHML_FOOTER: &'static str = "  </graph>\n</graphml>\n";

/// An association as exported: endpoints, weight text and type name.
#[derive(Debug)]
pub struct GraphEdge {
    pub source: String,
    pub target: String,
    pub weight: String,
    pub edge_type: String,
}

/// Mathematical model of a `GraphEdge`.
pub struct GraphEdgeView {
    pub source: Seq<char>,
    pub target: Seq<char>,
    pub weight: Seq<char>,
    pub edge_type: Seq<char>,
}

impl View for GraphEdge {
    type V = GraphEdgeView;

    open spec fn view(&self) -> GraphEdgeView {
        GraphEdgeView {
            source: self.source@,
            target: self.target@,
            weight: self.weight@,
            edge_type: self.edge_type@,
        }
    }
}

/// The weight an edge row without one is exported with (`0.0` as `Display`
/// writes it).
pub open spec fn default_weight_text() -> Seq<char> {
    "0"@
}

/// The type an edge row without one is exported with.
pub open spec fn default_type_text() -> Seq<char> {
    "Unknown"@
}

/// The edge that a result row gives, if it names both endpoints; a missing
/// weight counts as 0 and a missing type as "Unknown".
pub fn edge_from_row(
    source: Option<String>,
    target: Option<String>,
    weight: Option<String>,
    edge_type: Option<String>,
) -> (e: Option<GraphEdge>)
    ensures
        e is Some <==> source is Some && target is Some,
        e matches Some(edge) ==> {
            &&& edge@.source == source->Some_0@
            &&& edge@.target == target->Some_0@
            &&& edge@.weight == (match weight {
                Some(w) => w@,
                None => default_weight_text(),
            })
            &&& edge@.edge_type == (match edge_type {
                Some(t) => t@,
                None => default_type_text(),
            })
        },
{
    match (source, target) {
        (Some(source), Some(target)) => {
            let weight = match weight {
                Some(w) => w,
                None => String::from_str("0"),
            };
            let edge_type = match edge_type {
                Some(t) => t,
                None => String::from_str("Unknown"),
            };
            Some(GraphEdge { source, target, weight, edge_type })
        },
        _ => None,
    }
}

/// One node line.
pub open spec fn node_line(id: Seq<char>) -> Seq<char> {
    "    <node id=\""@ + id + "\"/>\n"@
}

/// One edge element, the `index`-th edge.
pub open spec fn edge_block(index: nat, e: GraphEdgeView) -> Seq<char> {
    "    <edge id=\"e"@ + decimal_text(index) + "\" source=\""@ + e.source + "\" target=\""@
        + e.target + "\">\n"@ + "      <data key=\"weight\">"@ + e.weight + "</data>\n"@
        + "      <data key=\"type\">"@ + e.edge_type + "</data>\n"@ + "    </edge>\n"@
}

/// The node lines for `ids`, in order.
pub open spec fn node_lines(ids: Seq<Seq<char>>) -> Seq<char>
    decreases ids.len(),
{
    if ids.len() == 0 {
        Seq::empty()
    } else {
        node_lines(ids.drop_last()) + node_line(ids.last())
    }
}

/// The edge elements for `edges`, in order, numbered from 0.
pub open spec fn edge_blocks(edges: Seq<GraphEdgeView>) -> Seq<char>
    decreases edges.len(),
{
    if edges.len() == 0 {
        Seq::empty()
    } else {
        edge_blocks(edges.drop_last()) + edge_block((edges.len() - 1) as nat, edges.last())
    }
}

/// The opening of the `k`-th edge element, up to and with its id.
pub open spec fn edge_id_tag(k: nat) -> Seq<char> {
    "    <edge id=\"e"@ + decimal_text(k) + "\""@
}

/// Different numbers have different decimal texts.
pub proof fn lemma_decimal_text_injective(a: nat, b: nat)
    requires
        decimal_text(a) == decimal_text(b),
    ensures
        a == b,
    decreases a,
{
    if a >= 10 {
        lemma_decimal_text_nonempty(a / 10);
    }
    if b >= 10 {
        lemma_decimal_text_nonempty(b / 10);
    }
    if a >= 10 && b >= 10 {
        let da = decimal_text(a);
        let db = decimal_text(b);
        assert(da == decimal_text(a / 10).push(((a % 10) + 48) as char));
        assert(db == decimal_text(b / 10).push(((b % 10) + 48) as char));
        assert(da.drop_last() =~= decimal_text(a / 10));
        assert(db.drop_last() =~= decimal_text(b / 10));
        lemma_decimal_text_injective(a / 10, b / 10);
        assert(da.last() == db.last());
        assert(((a % 10) + 48) as char == ((b % 10) + 48) as char);
        assert((((a % 10) + 48) as char) as int == (a % 10) + 48);
        assert((((b % 10) + 48) as char) as int == (b % 10) + 48);
        assert(a % 10 == b % 10);
        assert(a == (a / 10) * 10 + a % 10);
        assert(b == (b / 10) * 10 + b % 10);
    } else if a < 10 && b < 10 {
        assert(decimal_text(a) == seq![(a + 48) as char]);
        assert(decimal_text(b) == seq![(b + 48) as char]);
        assert(seq![(a + 48) as char][0] == (a + 48) as char);
        assert(seq![(b + 48) as char][0] == (b + 48) as char);
        assert(((a + 48) as char) as int == a + 48);
        assert(((b + 48) as char) as int == b + 48);
    } else if a < 10 {
        assert(decimal_text(a).len() == 1);
        assert(decimal_text(b) == decimal_text(b / 10).push(((b % 10) + 48) as char));
    } else {
        assert(decimal_text(b).len() == 1);
        assert(decimal_text(a) == decimal_text(a / 10).push(((a % 10) + 48) as char));
    }
}

/// A decimal text has at least one digit.
pub proof fn lemma_decimal_text_nonempty(n: nat)
    ensures
        decimal_text(n).len() >= 1,
    decreases n,
{
    if n >= 10 {
        lemma_decimal_text_nonempty(n / 10);
    }
}

/// Writing one more node adds its line after the lines of the earlier
/// nodes.
pub proof fn lemma_node_lines_push(ids: Seq<Seq<char>>, id: Seq<char>)
    ensures
        node_lines(ids.push(id)) == node_lines(ids) + node_line(id),
{
    assert(ids.push(id).drop_last() =~= ids);
}

/// Writing one more edge adds its element, numbered by the count of edges
/// before it, after the elements of the earlier edges.
pub proof fn lemma_edge_blocks_push(edges: Seq<GraphEdgeView>, e: GraphEdgeView)
    ensures
        edge_blocks(edges.push(e)) == edge_blocks(edges) + edge_block(edges.len(), e),
{
    assert(edges.push(e).drop_last() =~= edges);
}

/// The elements of the first `j` edges open the elements of all edges.
pub proof fn lemma_edge_blocks_prefix(edges: Seq<GraphEdgeView>, j: int)
    requires
        0 <= j <= edges.len(),
    ensures
        edge_blocks(edges.take(j)).len() <= edge_blocks(edges).len(),
        edge_blocks(edges).take(edge_blocks(edges.take(j)).len() as int) == edge_blocks(
            edges.take(j),
        ),
    decreases edges.len(),
{
    if j == edges.len() {
        assert(edges.take(j) =~= edges);
        assert(edge_blocks(edges).take(edge_blocks(edges).len() as int) =~= edge_blocks(edges));
    } else {
        let d = edges.drop_last();
        assert(d.take(j) =~= edges.take(j));
        lemma_edge_blocks_prefix(d, j);
        let n = edge_blocks(edges.take(j)).len() as int;
        assert(edge_blocks(edges).take(n) =~= edge_blocks(d).take(n));
    }
}

/// The `k`-th edge element of the document, which follows the elements of
/// the `k` edges before it, describes edge `k` and carries the id `e`
/// followed by the decimal text of `k`; edge elements with different
/// numbers carry different ids.
pub proof fn lemma_kth_edge_block(edges: Seq<GraphEdgeView>, k: int)
    requires
        0 <= k < edges.len(),
    ensures
        ({
            let a = edge_blocks(edges.take(k)).len() as int;
            let b = a + edge_block(k as nat, edges[k]).len();
            &&& b <= edge_blocks(edges).len()
            &&& edge_blocks(edges).subrange(a, b) == edge_block(k as nat, edges[k])
        }),
        edge_block(k as nat, edges[k]).take(edge_id_tag(k as nat).len() as int) == edge_id_tag(
            k as nat,
        ),
        forall|j: nat| j != k ==> #[trigger] edge_id_tag(j) != edge_id_tag(k as nat),
{
    lemma_edge_blocks_prefix(edges, k + 1);
    let t = edges.take(k + 1);
    assert(t.drop_last() =~= edges.take(k));
    assert(t.last() == edges[k]);
    let a = edge_blocks(edges.take(k)).len() as int;
    let blk = edge_block(k as nat, edges[k]);
    let b = a + blk.len();
    assert(edge_blocks(t) == edge_blocks(edges.take(k)) + blk);
    assert(edge_blocks(edges).subrange(a, b) =~= edge_blocks(t).subrange(a, b));
    assert(edge_blocks(t).subrange(a, b) =~= blk);
    let tag = edge_id_tag(k as nat);
    let opening = "    <edge id=\"e"@ + decimal_text(k as nat);
    reveal_strlit("\"");
    reveal_strlit("\" source=\"");
    assert(tag =~= opening + seq!['"']);
    assert(blk.take(tag.len() as int) =~= tag);
    assert forall|j: nat| j != k implies #[trigger] edge_id_tag(j) != edge_id_tag(k as nat) by {
        let p = "    <edge id=\"e"@;
        let q = "\""@;
        if edge_id_tag(j) == edge_id_tag(k as nat) {
            let dj = decimal_text(j);
            let dk = decimal_text(k as nat);
            assert(edge_id_tag(j).len() == edge_id_tag(k as nat).len());
            assert(dj.len() == dk.len());
            assert(dj =~= edge_id_tag(j).subrange(p.len() as int, (p.len() + dj.len()) as int));
            assert(dk =~= edge_id_tag(k as nat).subrange(p.len() as int, (p.len() + dk.len()) as int));
            lemma_decimal_text_injective(j, k as nat);
        }
    }
}

/// The whole GraphML document for the given nodes and edges.
pub open spec fn graphml_text(ids: Seq<Seq<char>>, edges: Seq<GraphEdgeView>) -> Seq<char> {
    GRAPHML_HEADER@ + node_lines(ids) + edge_blocks(edges) + GRAPHML_FOOTER@
}

/// The models of a list of strings.
pub open spec fn string_views(s: Seq<String>) -> Seq<Seq<char>> {
    s.map_values(|x: String| x@)
}

/// The models of a list of edges.
pub open spec fn edge_views(s: Seq<GraphEdge>) -> Seq<GraphEdgeView> {
    s.map_values(|e: GraphEdge| e@)
}

/// The GraphML document (for Gephi) of a directed association graph: one
/// `node` per ID, then one `edge` per association, numbered `e0`, `e1`, ...
#[verifier::spinoff_prover]
#[verifier::rlimit(30)]
pub fn graphml_document(node_ids: &Vec<String>, edges: &Vec<GraphEdge>) -> (xml: String)
    ensures
        xml@ == graphml_text(string_views(node_ids@), edge_views(edges@)),
{
    let mut xml = String::from_str(GRAPHML_HEADER);
    let mut i: usize = 0;
    while i < node_ids.len()
        invariant
            i <= node_ids@.len(),
            xml@ == GRAPHML_HEADER@ + node_lines(string_views(node_ids@.subrange(0, i as int))),
        decreases node_ids.len() - i,
    {
        let ghost before = xml@;
        xml.append("    <node id=\"");
        xml.append(node_ids[i].as_str());
        xml.append("\"/>\n");
        proof {
            let done = string_views(node_ids@.subrange(0, i + 1));
            assert(done.drop_last() =~= string_views(node_ids@.subrange(0, i as int)));
            assert(done.last() == node_ids@[i as int]@);
            assert(xml@ =~= before + node_line(node_ids@[i as int]@));
        }
        i = i + 1;
    }
    assert(node_ids@.subrange(0, node_ids@.len() as int) == node_ids@);
    let ghost with_nodes = xml@;
    let mut k: usize = 0;
    while k < edges.len()
        invariant
            k <= edges@.len(),
            xml@ == with_nodes + edge_blocks(edge_views(edges@.subrange(0, k as int))),
        decreases edges.len() - k,
    {
        let ghost before = xml@;
        let e = &edges[k];
        let index_text = usize_to_decimal(k);
        xml.append("    <edge id=\"e");
        xml.append(index_text.as_str());
        xml.append("\" source=\"");
        xml.append(e.source.as_str());
        xml.append("\" target=\"");
        xml.append(e.target.as_str());
        xml.append("\">\n");
        xml.append("      <data key=\"weight\">");
        xml.append(e.weight.as_str());
        xml.append("</data>\n");
        xml.append("      <data key=\"type\">");
        xml.append(e.edge_type.as_str());
        xml.append("</data>\n");
        xml.append("    </edge>\n");
        proof {
            let done = edge_views(edges@.subrange(0, k + 1));
            assert(done.drop_last() =~= edge_views(edges@.subrange(0, k as int)));
            assert(done.last() == edges@[k as int]@);
            assert(xml@ =~= before + edge_block(k as nat, edges@[k as int]@));
        }
        k = k + 1;
    }
    assert(edges@.subrange(0, edges@.len() as int) == edges@);
    xml.append(GRAPHML_FOOTER);
    proof {
        assert(xml@ =~= graphml_text(string_views(node_ids@), edge_views(edges@)));
    }
    xml
}

} // verus!
