//! Layer decoding and overlay semantics.
//!
//! A layer blob is a gzip-compressed archive of entries. Layers are applied
//! to the filesystem strictly in manifest order, later entries overwriting
//! earlier ones at identical paths.
use vstd::prelude::*;

verus! {

/// One entry of a layer archive: a path, the file's bytes, whether the
/// entry is a directory, and its recorded mode if the archive carries one.
#[derive(Debug, PartialEq, Eq)]
pub struct LayerEntry {
    pub path: Vec<u8>,
    pub data: Vec<u8>,
    pub is_dir: bool,
    pub mode: Option<u32>,
}

/// The mathematical value of a layer entry.
pub struct EntryModel {
    pub path: Seq<u8>,
    pub data: Seq<u8>,
    pub is_dir: bool,
    pub mode: Option<u32>,
}

impl View for LayerEntry {
    type V = EntryModel;

    open spec fn view(&self) -> EntryModel {
        EntryModel { path: self.path@, data: self.data@, is_dir: self.is_dir, mode: self.mode }
    }
}

/// A blob whose gzip or archive framing cannot be decoded.
#[derive(Debug, Clone, Copy, PartialEq, Eq)]
pub enum ExtractionError {
    CorruptArchive,
}

/// The values of a sequence of entries.
pub open spec fn views_of(es: Seq<LayerEntry>) -> Seq<EntryModel> {
    Seq::new(es.len(), |i: int| es[i]@)
}

/// What inflating a gzip stream yields; no result for a malformed stream.
pub uninterp spec fn gunzip_of(b: Seq<u8>) -> Option<Seq<u8>>;

/// What listing the entries of an archive yields; no result for malformed
/// framing.
pub uninterp spec fn tar_entries_of(b: Seq<u8>) -> Option<Seq<EntryModel>>;

/// What decoding a layer blob yields: inflate, then list the entries.
pub open spec fn layer_entries_of(b: Seq<u8>) -> Option<Seq<EntryModel>> {
    match gunzip_of(b) {
        Some(t) => tar_entries_of(t),
        None => None,
    }
}

/// Relies on flate2's `GzDecoder` over an in-memory slice: inflation is a
/// function of the bytes alone, and fails exactly on a malformed stream.
#[verifier::external_body]
fn gunzip(blob: &Vec<u8>) -> (r: Result<Vec<u8>, ExtractionError>)
    ensures
        match r {
            Ok(out) => gunzip_of(blob@) == Some(out@),
            Err(e) => gunzip_of(blob@) is None && e == ExtractionError::CorruptArchive,
        },
{
    let mut out = Vec::new();
    let mut dec = flate2::read::GzDecoder::new(blob.as_slice());
    match std::io::Read::read_to_end(&mut dec, &mut out) {
        Ok(_) => Ok(out),
        Err(_) => Err(ExtractionError::CorruptArchive),
    }
}

/// Relies on the tar crate's `Archive` over an in-memory slice: the entry
/// list is a function of the bytes alone, and fails exactly on malformed
/// framing.
#[verifier::external_body]
fn tar_entries(bytes: &Vec<u8>) -> (r: Result<Vec<LayerEntry>, ExtractionError>)
    ensures
        match r {
            Ok(es) => tar_entries_of(bytes@) == Some(views_of(es@)),
            Err(e) => tar_entries_of(bytes@) is None && e == ExtractionError::CorruptArchive,
        },
{
    let mut ar = tar::Archive::new(bytes.as_slice());
    let mut out: Vec<LayerEntry> = Vec::new();
    let run = (|| -> std::io::Result<()> {
        for next in ar.entries()? {
            let mut e = next?;
            let (path, is_dir) = (e.path_bytes().to_vec(), e.header().entry_type().is_dir());
            let (mode, mut data) = (e.header().mode().ok(), Vec::new());
            std::io::Read::read_to_end(&mut e, &mut data)?;
            out.push(LayerEntry { path, data, is_dir, mode });
        }
        Ok(())
    })();
    run.map(|_| out).map_err(|_| ExtractionError::CorruptArchive)
}

/// Decodes one layer blob into its entries, in archive order.
pub fn decode_layer(blob: &Vec<u8>) -> (r: Result<Vec<LayerEntry>, ExtractionError>)
    ensures
        match r {
            Ok(es) => layer_entries_of(blob@) == Some(views_of(es@)),
            Err(e) => layer_entries_of(blob@) is None && e == ExtractionError::CorruptArchive,
        },
{
    let tar_bytes = gunzip(blob)?;
    let entries = tar_entries(&tar_bytes)?;
    Ok(entries)
}

/// Writing one entry: the path now holds exactly this entry.
pub open spec fn write_entry(
    fs: Map<Seq<u8>, EntryModel>,
    e: EntryModel,
) -> Map<Seq<u8>, EntryModel> {
    fs.insert(e.path, e)
}

/// Writing a sequence of entries in order, later ones overwriting earlier
/// ones at identical paths.
pub open spec fn apply_entries(
    fs: Map<Seq<u8>, EntryModel>,
    es: Seq<EntryModel>,
) -> Map<Seq<u8>, EntryModel>
    decreases es.len(),
{
    if es.len() == 0 {
        fs
    } else {
        write_entry(apply_entries(fs, es.drop_last()), es.last())
    }
}

/// Applying whole layers in order: each layer's entries in archive order,
/// layers in manifest order.
pub open spec fn apply_layers(
    fs: Map<Seq<u8>, EntryModel>,
    layers: Seq<Seq<EntryModel>>,
) -> Map<Seq<u8>, EntryModel>
    decreases layers.len(),
{
    if layers.len() == 0 {
        fs
    } else {
        apply_entries(apply_layers(fs, layers.drop_last()), layers.last())
    }
}

/// The last entry of `es` whose path is `p`, if any.
pub open spec fn last_entry_for(es: Seq<EntryModel>, p: Seq<u8>) -> Option<EntryModel>
    decreases es.len(),
{
    if es.len() == 0 {
        None
    } else if es.last().path == p {
        Some(es.last())
    } else {
        last_entry_for(es.drop_last(), p)
    }
}

/// Law: applying layers one after the other is the same as extending the
/// layer sequence by one — the final filesystem of layers `L1..LN` is the
/// result of applying `L1`, then `L2`, ..., then `LN`.
pub proof fn lemma_apply_layers_step(
    fs: Map<Seq<u8>, EntryModel>,
    layers: Seq<Seq<EntryModel>>,
    l: Seq<EntryModel>,
)
    ensures
        apply_layers(fs, layers.push(l)) == apply_entries(apply_layers(fs, layers), l),
{
    assert(layers.push(l).drop_last() =~= layers);
    assert(layers.push(l).last() == l);
}

/// Law: within a sequence of entries applied in order, the last entry for a
/// path wins; a path no entry names keeps its prior contents.
pub proof fn lemma_last_writer_wins(
    fs: Map<Seq<u8>, EntryModel>,
    es: Seq<EntryModel>,
    p: Seq<u8>,
)
    ensures
        match last_entry_for(es, p) {
            Some(e) => apply_entries(fs, es).contains_key(p) && apply_entries(fs, es)[p] == e,
            None => apply_entries(fs, es).contains_key(p) == fs.contains_key(p) && (
            fs.contains_key(p) ==> apply_entries(fs, es)[p] == fs[p]),
        },
    decreases es.len(),
{
    if es.len() > 0 {
        lemma_last_writer_wins(fs, es.drop_last(), p);
    }
}

/// Applying a concatenation of entry runs is applying the runs in order.
pub proof fn lemma_apply_entries_concat(
    fs: Map<Seq<u8>, EntryModel>,
    a: Seq<EntryModel>,
    b: Seq<EntryModel>,
)
    ensures
        apply_entries(fs, a + b) == apply_entries(apply_entries(fs, a), b),
    decreases b.len(),
{
    if b.len() == 0 {
        assert(a + b =~= a);
    } else {
        lemma_apply_entries_concat(fs, a, b.drop_last());
        assert((a + b).drop_last() =~= a + b.drop_last());
        assert((a + b).last() == b.last());
    }
}

/// Law: layer-order determinism. Applying the layers in order is applying
/// the single stream of all their entries, in order — so, with
/// `lemma_last_writer_wins`, the entry that settles any path is the last
/// one for that path across the whole stack.
pub proof fn lemma_layer_order_determinism(
    fs: Map<Seq<u8>, EntryModel>,
    layers: Seq<Seq<EntryModel>>,
)
    ensures
        apply_layers(fs, layers) == apply_entries(fs, layers.flatten()),
    decreases layers.len(),
{
    layers.lemma_flatten_and_flatten_alt_are_equivalent();
    if layers.len() > 0 {
        lemma_layer_order_determinism(fs, layers.drop_last());
        layers.drop_last().lemma_flatten_and_flatten_alt_are_equivalent();
        assert(layers.flatten() =~= layers.drop_last().flatten() + layers.last());
        lemma_apply_entries_concat(fs, layers.drop_last().flatten(), layers.last());
    }
}

/// If a path has an entry in no layer, its prior contents survive the whole
/// stack; the found entry otherwise comes from the last layer that names the
/// path.
pub proof fn lemma_untouched_path_survives(
    fs: Map<Seq<u8>, EntryModel>,
    layers: Seq<Seq<EntryModel>>,
    p: Seq<u8>,
)
    requires
        forall|i: int| 0 <= i < layers.len() ==> last_entry_for(#[trigger] layers[i], p) is None,
    ensures
        apply_layers(fs, layers).contains_key(p) == fs.contains_key(p),
        fs.contains_key(p) ==> apply_layers(fs, layers)[p] == fs[p],
    decreases layers.len(),
{
    if layers.len() > 0 {
        lemma_untouched_path_survives(fs, layers.drop_last(), p);
        lemma_last_writer_wins(apply_layers(fs, layers.drop_last()), layers.last(), p);
    }
}

/// Compares two byte strings.
fn bytes_eq(a: &[u8], b: &[u8]) -> (r: bool)
    ensures
        r == (a@ == b@),
{
    if a.len() != b.len() {
        return false;
    }
    let mut k: usize = 0;
    while k < a.len()
        invariant
            a@.len() == b@.len(),
            k <= a@.len(),
            forall|j: int| 0 <= j < k ==> a@[j] == b@[j],
        decreases a@.len() - k,
    {
        if a[k] != b[k] {
            return false;
        }
        k += 1;
    }
    proof {
        assert(a@ =~= b@);
    }
    true
}

/// An in-memory filesystem built by applying layer entries in order. Its
/// value is the map from each written path to the last entry written there.
pub struct FsState {
    entries: Vec<LayerEntry>,
}

impl View for FsState {
    type V = Map<Seq<u8>, EntryModel>;

    closed spec fn view(&self) -> Map<Seq<u8>, EntryModel> {
        apply_entries(Map::empty(), views_of(self.entries@))
    }
}

impl FsState {
    /// An empty filesystem.
    pub fn new() -> (r: FsState)
        ensures
            r@ == Map::<Seq<u8>, EntryModel>::empty(),
    {
        FsState { entries: Vec::new() }
    }

    /// Writes one entry, overwriting whatever the path held.
    pub fn apply_entry(&mut self, e: LayerEntry)
        ensures
            final(self)@ == write_entry(old(self)@, e@),
    {
        let ghost prior = views_of(self.entries@);
        let ghost ev = e@;
        self.entries.push(e);
        proof {
            assert(views_of(self.entries@) =~= prior.push(ev));
            assert(views_of(self.entries@).drop_last() =~= prior);
        }
    }

    /// Applies one decoded layer, entry by entry, in archive order.
    pub fn apply_layer(&mut self, layer: Vec<LayerEntry>)
        ensures
            final(self)@ == apply_entries(old(self)@, views_of(layer@)),
    {
        let ghost all = views_of(layer@);
        let ghost applied: int = 0;
        let mut rest = layer;
        while rest.len() > 0
            invariant
                0 <= applied <= all.len(),
                all.len() - applied == rest.len(),
                views_of(rest@) =~= all.skip(applied),
                self@ == apply_entries(old(self)@, all.take(applied)),
            decreases rest.len(),
        {
            let ghost pre = rest@;
            let e = rest.remove(0);
            proof {
                assert(views_of(pre)[0] == e@);
                assert(all.skip(applied)[0] == e@);
                assert forall|j: int| 0 <= j < rest@.len() implies views_of(rest@)[j] == all.skip(
                    applied + 1,
                )[j] by {
                    assert(rest@[j] == pre[j + 1]);
                    assert(views_of(pre)[j + 1] == all.skip(applied)[j + 1]);
                }
                assert(views_of(rest@) =~= all.skip(applied + 1));
            }
            self.apply_entry(e);
            proof {
                assert(all.take(applied + 1).drop_last() =~= all.take(applied));
                assert(all.take(applied + 1).last() == all[applied]);
                assert(all[applied] == e@);
                applied = applied + 1;
            }
        }
        proof {
            assert(all.take(applied) =~= all);
        }
    }

    /// Decodes a layer blob and applies its entries. Succeeds exactly when
    /// the blob decodes; a rejected blob leaves the filesystem unchanged.
    pub fn unpack_layer(&mut self, blob: &Vec<u8>) -> (r: Result<(), ExtractionError>)
        ensures
            match r {
                Ok(()) => layer_entries_of(blob@) matches Some(es) && final(self)@ == apply_entries(
                    old(self)@,
                    es,
                ),
                Err(e) => {
                    &&& layer_entries_of(blob@) is None
                    &&& e == ExtractionError::CorruptArchive
                    &&& final(self)@ == old(self)@
                },
            },
    {
        let entries = decode_layer(blob)?;
        self.apply_layer(entries);
        Ok(())
    }

    /// Decodes and applies a whole stack of layer blobs in order. Succeeds
    /// exactly when every blob decodes; a failure aborts mid-stack, leaving
    /// the layers already applied in place.
    pub fn unpack_layers(&mut self, blobs: &Vec<Vec<u8>>) -> (r: Result<(), ExtractionError>)
        ensures
            match r {
                Ok(()) => decoded_layers_of(blobs.deep_view()) matches Some(ls) && final(self)@
                    == apply_layers(old(self)@, ls),
                Err(e) => {
                    &&& decoded_layers_of(blobs.deep_view()) is None
                    &&& e == ExtractionError::CorruptArchive
                },
            },
    {
        let ghost bv = blobs.deep_view();
        let mut k: usize = 0;
        while k < blobs.len()
            invariant
                k <= blobs.len(),
                bv == blobs.deep_view(),
                bv.len() == blobs.len(),
                decoded_layers_of(bv.take(k as int)) matches Some(ls) && self@ == apply_layers(
                    old(self)@,
                    ls,
                ),
            decreases blobs.len() - k,
        {
            proof {
                assert(bv[k as int] == blobs@[k as int]@);
            }
            let entries = match decode_layer(&blobs[k]) {
                Ok(es) => es,
                Err(e) => {
                    proof {
                        lemma_decode_failure_propagates(bv, k as int);
                    }
                    return Err(e);
                },
            };
            let ghost ls = decoded_layers_of(bv.take(k as int))->Some_0;
            self.apply_layer(entries);
            proof {
                assert(bv.take(k + 1).drop_last() =~= bv.take(k as int));
                assert(bv.take(k + 1).last() == bv[k as int]);
                let lk = layer_entries_of(bv[k as int])->Some_0;
                assert(decoded_layers_of(bv.take(k + 1)) == Some(ls.push(lk)));
                lemma_apply_layers_step(old(self)@, ls, lk);
            }
            k += 1;
        }
        proof {
            assert(bv.take(k as int) =~= bv);
        }
        Ok(())
    }

    /// Looks a path up: the last entry written there, if any.
    pub fn lookup(&self, path: &[u8]) -> (r: Option<&LayerEntry>)
        ensures
            match r {
                Some(e) => self@.contains_key(path@) && self@[path@] == e@,
                None => !self@.contains_key(path@),
            },
    {
        let ghost vs = views_of(self.entries@);
        let mut k: usize = self.entries.len();
        while k > 0
            invariant
                k <= self.entries.len(),
                vs == views_of(self.entries@),
                forall|j: int| k <= j < vs.len() ==> vs[j].path != path@,
            decreases k,
        {
            k -= 1;
            if bytes_eq(self.entries[k].path.as_slice(), path) {
                proof {
                    lemma_last_entry_found(vs, path@, k as int);
                    lemma_last_writer_wins(Map::empty(), vs, path@);
                }
                return Some(&self.entries[k]);
            }
        }
        proof {
            lemma_last_entry_none(vs, path@);
            lemma_last_writer_wins(Map::empty(), vs, path@);
        }
        None
    }
}

/// What decoding every blob of a stack yields, in order; no result when any
/// blob is refused.
pub open spec fn decoded_layers_of(blobs: Seq<Seq<u8>>) -> Option<Seq<Seq<EntryModel>>>
    decreases blobs.len(),
{
    if blobs.len() == 0 {
        Some(Seq::empty())
    } else {
        match (decoded_layers_of(blobs.drop_last()), layer_entries_of(blobs.last())) {
            (Some(ls), Some(l)) => Some(ls.push(l)),
            _ => None,
        }
    }
}

/// One undecodable blob anywhere in the stack refuses the whole stack.
proof fn lemma_decode_failure_propagates(blobs: Seq<Seq<u8>>, i: int)
    requires
        0 <= i < blobs.len(),
        layer_entries_of(blobs[i]) is None,
    ensures
        decoded_layers_of(blobs) is None,
    decreases blobs.len(),
{
    if i < blobs.len() - 1 {
        lemma_decode_failure_propagates(blobs.drop_last(), i);
    }
}

/// If an entry at index `i` has path `p` and no later entry does, it is the
/// last entry for `p`.
proof fn lemma_last_entry_found(vs: Seq<EntryModel>, p: Seq<u8>, i: int)
    requires
        0 <= i < vs.len(),
        vs[i].path == p,
        forall|j: int| i < j < vs.len() ==> vs[j].path != p,
    ensures
        last_entry_for(vs, p) == Some(vs[i]),
    decreases vs.len(),
{
    if i < vs.len() - 1 {
        lemma_last_entry_found(vs.drop_last(), p, i);
    }
}

/// If no entry has path `p`, there is no last entry for `p`.
proof fn lemma_last_entry_none(vs: Seq<EntryModel>, p: Seq<u8>)
    requires
        forall|j: int| 0 <= j < vs.len() ==> vs[j].path != p,
    ensures
        last_entry_for(vs, p) is None,
    decreases vs.len(),
{
    if vs.len() > 0 {
        lemma_last_entry_none(vs.drop_last(), p);
    }
}

} // verus!
