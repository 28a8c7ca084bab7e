use vstd::prelude::*;
use crate::buffers::Vertex;

verus! {

/// The four bytes of a 32-bit word, lowest first.
pub open spec fn word_bytes(word: u32) -> Seq<u8> {
    seq![
        (word % 256) as u8,
        (word / 256 % 256) as u8,
        (word / 65536 % 256) as u8,
        (word / 16777216) as u8,
    ]
}

/// The bytes of a run of 32-bit words, in order: four bytes for each word,
/// lowest first.
pub open spec fn bytes_of(words: Seq<u32>) -> Seq<u8> {
    Seq::new(4 * words.len(), |i: int| word_bytes(words[i / 4])[i % 4])
}

/// The five words of a vertex: the position, then red, green and blue.
pub open spec fn vertex_words(vertex: Vertex) -> Seq<u32> {
    seq![vertex.pos.x, vertex.pos.y, vertex.color.r, vertex.color.g, vertex.color.b]
}

/// The words of a run of vertices, in order: five words for each vertex.
pub open spec fn words_of(vertices: Seq<Vertex>) -> Seq<u32> {
    Seq::new(5 * vertices.len(), |i: int| vertex_words(vertices[i / 5])[i % 5])
}

/// Lays a run of 32-bit words out as bytes, each word lowest byte first.
pub fn cast_slice(data: &[u32]) -> (bytes: Vec<u8>)
    ensures
        bytes@ == bytes_of(data@),
{
    let mut bytes: Vec<u8> = Vec::new();
    let mut i: usize = 0;
    while i < data.len()
        invariant
            i <= data.len(),
            bytes@ == bytes_of(data@.take(i as int)),
        decreases data.len() - i,
    {
        let word = data[i];
        let ghost earlier = bytes@;
        bytes.push((word % 256) as u8);
        bytes.push((word / 256 % 256) as u8);
        bytes.push((word / 65536 % 256) as u8);
        bytes.push((word / 16777216) as u8);
        i = i + 1;
        proof {
            let now = bytes_of(data@.take(i as int));
            assert(bytes@.len() == now.len());
            assert forall|k: int| 0 <= k < now.len() implies bytes@[k] == now[k] by {
                if k < earlier.len() {
                    assert(data@.take(i as int)[k / 4] == data@.take(i - 1)[k / 4]);
                } else {
                    assert(k / 4 == i - 1);
                }
            }
            assert(bytes@ =~= now);
        }
    }
    assert(data@.take(data.len() as int) =~= data@);
    bytes
}

/// Lays a run of vertices out as 32-bit words, five for each vertex.
pub fn vertex_words_of(vertices: &Vec<Vertex>) -> (words: Vec<u32>)
    ensures
        words@ == words_of(vertices@),
{
    let mut words: Vec<u32> = Vec::new();
    let mut i: usize = 0;
    while i < vertices.len()
        invariant
            i <= vertices.len(),
            words@ == words_of(vertices@.take(i as int)),
        decreases vertices.len() - i,
    {
        let vertex = vertices[i];
        let ghost earlier = words@;
        words.push(vertex.pos.x);
        words.push(vertex.pos.y);
        words.push(vertex.color.r);
        words.push(vertex.color.g);
        words.push(vertex.color.b);
        i = i + 1;
        proof {
            let now = words_of(vertices@.take(i as int));
            assert(words@.len() == now.len());
            assert forall|k: int| 0 <= k < now.len() implies words@[k] == now[k] by {
                if k < earlier.len() {
                    assert(vertices@.take(i as int)[k / 5] == vertices@.take(i - 1)[k / 5]);
                } else {
                    assert(k / 5 == i - 1);
                }
            }
            assert(words@ =~= now);
        }
    }
    assert(vertices@.take(vertices.len() as int) =~= vertices@);
    words
}

/// A word is the sum of its bytes, each weighted by its place.
proof fn lemma_word_from_bytes(word: u32)
    ensures
        word == word_bytes(word)[0] + 256 * word_bytes(word)[1] + 65536 * word_bytes(word)[2]
            + 16777216 * word_bytes(word)[3],
{
}

/// Equal bytes come from equal words only.
pub proof fn lemma_bytes_determine_words(a: Seq<u32>, b: Seq<u32>)
    requires
        bytes_of(a) == bytes_of(b),
    ensures
        a == b,
{
    assert(bytes_of(a).len() == 4 * a.len());
    assert(bytes_of(b).len() == 4 * b.len());
    assert(a.len() == b.len());
    assert forall|i: int| 0 <= i < a.len() implies a[i] == b[i] by {
        assert forall|k: int| 0 <= k < 4 implies word_bytes(a[i])[k] == word_bytes(b[i])[k] by {
            assert((4 * i + k) / 4 == i && (4 * i + k) % 4 == k);
            assert(bytes_of(a)[4 * i + k] == word_bytes(a[i])[k]);
            assert(bytes_of(b)[4 * i + k] == word_bytes(b[i])[k]);
        }
        lemma_word_from_bytes(a[i]);
        lemma_word_from_bytes(b[i]);
    }
    assert(a =~= b);
}

/// Equal words come from equal vertices only.
pub proof fn lemma_words_determine_vertices(a: Seq<Vertex>, b: Seq<Vertex>)
    requires
        words_of(a) == words_of(b),
    ensures
        a == b,
{
    assert(words_of(a).len() == 5 * a.len());
    assert(words_of(b).len() == 5 * b.len());
    assert(a.len() == b.len());
    assert forall|i: int| 0 <= i < a.len() implies a[i] == b[i] by {
        assert forall|k: int| 0 <= k < 5 implies vertex_words(a[i])[k] == vertex_words(b[i])[k] by {
            assert((5 * i + k) / 5 == i && (5 * i + k) % 5 == k);
            assert(words_of(a)[5 * i + k] == vertex_words(a[i])[k]);
            assert(words_of(b)[5 * i + k] == vertex_words(b[i])[k]);
        }
        assert(vertex_words(a[i])[0] == vertex_words(b[i])[0]);
        assert(vertex_words(a[i])[1] == vertex_words(b[i])[1]);
        assert(vertex_words(a[i])[2] == vertex_words(b[i])[2]);
        assert(vertex_words(a[i])[3] == vertex_words(b[i])[3]);
        assert(vertex_words(a[i])[4] == vertex_words(b[i])[4]);
    }
    assert(a =~= b);
}

} // verus!
