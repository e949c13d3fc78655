//! The clipboard scan pipeline: an ordered, append-only record collection
//! with per-payload failure isolation.

use vstd::prelude::*;
use crate::text::decoded_text;
use crate::text::decode_text;

verus! {

/// Mathematical model of one displayed record: the MIME label the clipboard
/// item declared, the diagnostic runtime-type label the platform layer
/// observed, and the displayed text.
#[verifier::ext_equal]
pub ghost struct RecordModel {
    pub mime: Seq<char>,
    pub runtime_type: Seq<char>,
    pub text: Seq<char>,
}

/// Model of one (clipboard item, offered type) pair as the platform layer
/// hands it over: the payload is the fetched bytes, or `None` where fetching
/// that representation failed.
#[verifier::ext_equal]
pub ghost struct PairModel {
    pub mime: Seq<char>,
    pub runtime_type: Seq<char>,
    pub payload: Option<Seq<u8>>,
}

/// Model of one clipboard item: its (type, payload) pairs in offer order.
pub type ItemModel = Seq<PairModel>;

/// The record a successfully fetched payload produces: its text is the UTF-8
/// decoding of the bytes, or the binary-data sentinel.
pub open spec fn record_of(mime: Seq<char>, runtime_type: Seq<char>, b: Seq<u8>) -> RecordModel {
    RecordModel { mime, runtime_type, text: decoded_text(b) }
}

/// The record of a pair whose payload was fetched.
pub open spec fn fetched_record(p: PairModel) -> RecordModel {
    record_of(p.mime, p.runtime_type, p.payload->0)
}

/// The records one pair contributes: exactly one when its payload was
/// fetched, none when fetching failed (the pair is skipped, not recorded).
pub open spec fn pair_records(p: PairModel) -> Seq<RecordModel> {
    match p.payload {
        Some(b) => seq![record_of(p.mime, p.runtime_type, b)],
        None => Seq::empty(),
    }
}

/// The records one item contributes, in type-offer order.
pub open spec fn item_records(item: ItemModel) -> Seq<RecordModel>
    decreases item.len(),
{
    if item.len() == 0 {
        Seq::empty()
    } else {
        pair_records(item[0]) + item_records(item.drop_first())
    }
}

/// The full result of a scan over `items`: every record in (item order,
/// type order), never re-sorted, duplicates preserved.
pub open spec fn scan_records(items: Seq<ItemModel>) -> Seq<RecordModel>
    decreases items.len(),
{
    if items.len() == 0 {
        Seq::empty()
    } else {
        item_records(items[0]) + scan_records(items.drop_first())
    }
}

/// The payload model of an optional borrowed byte vector.
pub open spec fn fetched_model(payload: Option<&Vec<u8>>) -> Option<Seq<u8>> {
    match payload {
        Some(b) => Some(b@),
        None => None,
    }
}

/// One displayed record, the atomic unit the result table renders.
#[derive(Clone, Debug)]
pub struct DecodedRecord {
    /// The MIME type string the clipboard item declared for this payload.
    pub mime: String,
    /// Diagnostic label for the kind of platform object the payload arrived
    /// as; informational only, never branched on.
    pub runtime_type: String,
    /// The UTF-8 decoding of the payload, or the sentinel `"Binary Data"`.
    pub text: String,
}

impl View for DecodedRecord {
    type V = RecordModel;

    open spec fn view(&self) -> RecordModel {
        RecordModel { mime: self.mime@, runtime_type: self.runtime_type@, text: self.text@ }
    }
}

impl DeepView for DecodedRecord {
    type V = RecordModel;

    open spec fn deep_view(&self) -> RecordModel {
        self.view()
    }
}

/// One (item, type) pair with the outcome of fetching its payload bytes.
#[derive(Clone, Debug)]
pub struct TypedPayload {
    /// The MIME type string under which the payload was requested.
    pub mime: String,
    /// Diagnostic runtime-type label observed for the payload object.
    pub runtime_type: String,
    /// The fetched bytes, or `None` where the platform failed to materialize
    /// this representation.
    pub payload: Option<Vec<u8>>,
}

impl View for TypedPayload {
    type V = PairModel;

    open spec fn view(&self) -> PairModel {
        PairModel {
            mime: self.mime@,
            runtime_type: self.runtime_type@,
            payload: match self.payload {
                Some(b) => Some(b@),
                None => None,
            },
        }
    }
}

impl DeepView for TypedPayload {
    type V = PairModel;

    open spec fn deep_view(&self) -> PairModel {
        self.view()
    }
}

/// One clipboard item as scanned: the fetch outcome for each type it offers,
/// in offer order. An item offering no types contributes nothing to a scan.
#[derive(Clone, Debug)]
pub struct ScannedItem {
    /// One entry per MIME type the item offered, in offer order.
    pub payloads: Vec<TypedPayload>,
}

impl View for ScannedItem {
    type V = ItemModel;

    open spec fn view(&self) -> ItemModel {
        self.payloads.deep_view()
    }
}

impl DeepView for ScannedItem {
    type V = ItemModel;

    open spec fn deep_view(&self) -> ItemModel {
        self.view()
    }
}

/// The visible result of one scan: an append-only ordered collection of
/// records, reset at the start of each scan and grown one record at a time
/// as payloads are decoded.
#[derive(Clone, Debug)]
pub struct ScanResult {
    records: Vec<DecodedRecord>,
}

impl View for ScanResult {
    type V = Seq<RecordModel>;

    closed spec fn view(&self) -> Seq<RecordModel> {
        self.records.deep_view()
    }
}

impl ScanResult {
    /// Start a new scan: the visible collection is empty at the reset
    /// instant, before any record of the new scan has been appended.
    pub fn new() -> (r: ScanResult)
        ensures
            r@ == Seq::<RecordModel>::empty(),
    {
        let r = ScanResult { records: Vec::new() };
        proof {
            assert(r@ =~= Seq::<RecordModel>::empty());
        }
        r
    }

    /// Reset in place for a new scan: the visible collection becomes empty
    /// immediately, before any record of the new scan arrives.
    pub fn reset(&mut self)
        ensures
            final(self)@ == Seq::<RecordModel>::empty(),
    {
        self.records = Vec::new();
        proof {
            assert(self@ =~= Seq::<RecordModel>::empty());
        }
    }

    /// Record the outcome of one (item, type) pair: append exactly one
    /// decoded record when the payload was fetched, and leave the collection
    /// unchanged when fetching failed. One failed pair never hides any other
    /// record.
    pub fn process(&mut self, mime: String, runtime_type: String, payload: Option<&Vec<u8>>)
        ensures
            final(self)@ == old(self)@ + pair_records(
                (PairModel {
                    mime: mime@,
                    runtime_type: runtime_type@,
                    payload: fetched_model(payload),
                })
            ),
    {
        match payload {
            Some(b) => {
                let text = decode_text(b);
                let rec = DecodedRecord { mime, runtime_type, text };
                self.records.push(rec);
                proof {
                    assert(self@ =~= old(self)@ + pair_records(
                        (PairModel {
                            mime: rec.mime@,
                            runtime_type: rec.runtime_type@,
                            payload: Some(b@),
                        })
                    ));
                }
            },
            None => {
                proof {
                    assert(self@ =~= self@ + Seq::<RecordModel>::empty());
                }
            },
        }
    }

    /// The number of records appended so far.
    pub fn len(&self) -> (n: usize)
        ensures
            n == self@.len(),
    {
        self.records.len()
    }

    /// The record at position `i`, in append order.
    pub fn get(&self, i: usize) -> (r: &DecodedRecord)
        requires
            i < self@.len(),
        ensures
            r@ == self@[i as int],
    {
        &self.records[i]
    }

    /// All records, in append order.
    pub fn into_records(self) -> (r: Vec<DecodedRecord>)
        ensures
            r.deep_view() == self@,
    {
        self.records
    }
}

/// Appending one pair to an item appends that pair's records to the item's.
proof fn lemma_item_records_snoc(item: ItemModel, p: PairModel)
    ensures
        item_records(item.push(p)) == item_records(item) + pair_records(p),
    decreases item.len(),
{
    if item.len() == 0 {
        assert(item.push(p)[0] == p);
        assert(item.push(p).drop_first() =~= Seq::<PairModel>::empty());
        assert(item_records(Seq::<PairModel>::empty()) == Seq::<RecordModel>::empty());
        assert(item_records(item.push(p)) == pair_records(p) + Seq::<RecordModel>::empty());
        assert(pair_records(p) + Seq::<RecordModel>::empty() =~= pair_records(p));
        assert(item_records(item) == Seq::<RecordModel>::empty());
        assert(Seq::<RecordModel>::empty() + pair_records(p) =~= pair_records(p));
    } else {
        lemma_item_records_snoc(item.drop_first(), p);
        assert(item.push(p)[0] == item[0]);
        assert(item.push(p).drop_first() =~= item.drop_first().push(p));
        assert(item_records(item.push(p)) == pair_records(item[0]) + item_records(
            item.drop_first().push(p),
        ));
        assert(item_records(item.push(p)) == pair_records(item[0]) + (item_records(
            item.drop_first(),
        ) + pair_records(p)));
        assert(pair_records(item[0]) + (item_records(item.drop_first()) + pair_records(p)) =~= (
        pair_records(item[0]) + item_records(item.drop_first())) + pair_records(p));
        assert(item_records(item) == pair_records(item[0]) + item_records(item.drop_first()));
    }
}

/// Appending one item to a scan appends that item's records to the scan's.
proof fn lemma_scan_records_snoc(items: Seq<ItemModel>, item: ItemModel)
    ensures
        scan_records(items.push(item)) == scan_records(items) + item_records(item),
    decreases items.len(),
{
    if items.len() == 0 {
        assert(items.push(item)[0] == item);
        assert(items.push(item).drop_first() =~= Seq::<ItemModel>::empty());
        assert(scan_records(Seq::<ItemModel>::empty()) == Seq::<RecordModel>::empty());
        assert(scan_records(items.push(item)) == item_records(item) + Seq::<RecordModel>::empty());
        assert(item_records(item) + Seq::<RecordModel>::empty() =~= item_records(item));
        assert(scan_records(items) == Seq::<RecordModel>::empty());
        assert(Seq::<RecordModel>::empty() + item_records(item) =~= item_records(item));
    } else {
        lemma_scan_records_snoc(items.drop_first(), item);
        assert(items.push(item)[0] == items[0]);
        assert(items.push(item).drop_first() =~= items.drop_first().push(item));
        assert(scan_records(items.push(item)) == item_records(items[0]) + scan_records(
            items.drop_first().push(item),
        ));
        assert(scan_records(items.push(item)) == item_records(items[0]) + (scan_records(
            items.drop_first(),
        ) + item_records(item)));
        assert(item_records(items[0]) + (scan_records(items.drop_first()) + item_records(item)) =~= (
        item_records(items[0]) + scan_records(items.drop_first())) + item_records(item));
        assert(scan_records(items) == item_records(items[0]) + scan_records(items.drop_first()));
    }
}

/// Run the decoding pipeline over a fully scanned clipboard: one record per
/// successfully fetched (item, type) pair, in (item order, type order),
/// skipping failed pairs and items that offer no types.
pub fn run_scan(items: &Vec<ScannedItem>) -> (r: ScanResult)
    ensures
        r@ == scan_records(items.deep_view()),
{
    let ghost dv: Seq<ItemModel> = items.deep_view();
    let mut r = ScanResult::new();
    let mut i: usize = 0;
    while i < items.len()
        invariant
            i <= items.len(),
            dv == items.deep_view(),
            dv.len() == items.len(),
            r@ == scan_records(dv.take(i as int)),
        decreases items.len() - i,
    {
        let item = &items[i];
        let ghost im: ItemModel = dv[i as int];
        proof {
            assert(item@ == im);
        }
        let mut j: usize = 0;
        while j < item.payloads.len()
            invariant
                j <= item.payloads.len(),
                im == item@,
                im.len() == item.payloads.len(),
                r@ == scan_records(dv.take(i as int)) + item_records(im.take(j as int)),
            decreases item.payloads.len() - j,
        {
            let pair = &item.payloads[j];
            proof {
                assert(im[j as int] == pair@);
            }
            let fetched = pair.payload.as_ref();
            r.process(pair.mime.clone(), pair.runtime_type.clone(), fetched);
            proof {
                assert(fetched_model(fetched) == pair@.payload);
                assert((PairModel {
                    mime: pair.mime@,
                    runtime_type: pair.runtime_type@,
                    payload: pair@.payload,
                }) =~= im[j as int]);
                lemma_item_records_snoc(im.take(j as int), im[j as int]);
                assert(im.take(j as int).push(im[j as int]) =~= im.take(j as int + 1));
            }
            j = j + 1;
        }
        proof {
            assert(im.take(j as int) =~= im);
            lemma_scan_records_snoc(dv.take(i as int), im);
            assert(dv.take(i as int).push(im) =~= dv.take(i as int + 1));
        }
        i = i + 1;
    }
    proof {
        assert(dv.take(i as int) =~= dv);
    }
    r
}

} // verus!
