use std::collections::BTreeMap;
use streams::error::Error;
use streams::head::{SignedHead, EMPTY_ROOT, UNSIGNED};
use streams::id::StreamId;
use streams::lock::LockTable;
use streams::reader::StreamReader;
use streams::signature::Keypair;
use streams::store::StreamStorage;
use streams::stream::{Slice, Stream};
use streams::writer::{Closed, WriterState};

type Index = BTreeMap<Vec<u8>, Vec<u8>>;

fn keypair(seed: u8) -> Keypair {
    let secret = [seed; 32];
    let public = public_of(&secret);
    Keypair::new(secret, public).unwrap()
}

fn public_of(secret: &[u8; 32]) -> [u8; 32] {
    let secret = ed25519_dalek::SecretKey::from_bytes(secret).unwrap();
    ed25519_dalek::PublicKey::from(&secret).to_bytes()
}

fn stored<'a>(index: &'a Index, id: &StreamId) -> Option<&'a [u8]> {
    index.get(&id.to_bytes()).map(|value| &value[..])
}

fn put(index: &mut Index, record: &Stream) {
    index.insert(record.head().id().to_bytes(), record.to_bytes());
}

fn new_local(storage: &StreamStorage, index: &mut Index, number: u64) -> StreamId {
    let (id, record) = storage.create_local_stream(number);
    put(index, &record);
    id
}

fn append(
    storage: &mut StreamStorage,
    index: &mut Index,
    file: &mut Vec<u8>,
    id: &StreamId,
    chunk: &[u8],
) -> Closed {
    let mut writer = storage
        .append_local_stream(id, stored(index, id), file.clone())
        .unwrap();
    writer.write(chunk).unwrap();
    file.extend_from_slice(chunk);
    writer.commit()
}

fn finish(storage: &mut StreamStorage, index: &mut Index, closed: Closed) -> Stream {
    if closed.state == WriterState::Committed {
        put(index, &closed.record);
    }
    storage.release(closed.lock);
    closed.record
}

fn hello(storage: &mut StreamStorage, index: &mut Index, file: &mut Vec<u8>) -> (StreamId, Stream) {
    let id = new_local(storage, index, 0);
    let closed = append(storage, index, file, &id, b"hello world");
    assert_eq!(closed.state, WriterState::Committed);
    assert_eq!(closed.error, None);
    assert_eq!(closed.appended, b"hello world");
    (id, finish(storage, index, closed))
}

#[test]
fn test_keypair_refuses_a_public_half_off_the_curve() {
    let mut tried = 0;
    let mut refused = 0;
    for first in 0..=255u8 {
        let mut public = [0u8; 32];
        public[0] = first;
        public[1] = 1;
        tried += 1;
        let ours = Keypair::new([1; 32], public);
        let theirs = ed25519_dalek::PublicKey::from_bytes(&public);
        assert_eq!(ours.is_ok(), theirs.is_ok());
        if let Err(e) = ours {
            assert_eq!(e, Error::InvalidKey);
            refused += 1;
        }
    }
    assert!(refused > 0 && refused < tried);
}

#[test]
fn test_keypair_signs_as_dalek_does() {
    let key = keypair(7);
    assert_eq!(*key.public(), public_of(&[7; 32]));
    let mut pair = [0u8; 64];
    pair[..32].copy_from_slice(&[7; 32]);
    pair[32..].copy_from_slice(key.public());
    let theirs = ed25519_dalek::Keypair::from_bytes(&pair).unwrap();
    let expect = ed25519_dalek::Signer::sign(&theirs, b"some message").to_bytes();
    assert_eq!(key.sign(b"some message"), expect);
    assert_ne!(key.sign(b"some message"), key.sign(b"another message"));
}

#[test]
fn test_sign_and_verify_head() {
    let key = keypair(3);
    let id = StreamId::new(*key.public(), 5);
    let mut signed = SignedHead::new(id);
    assert_eq!(signed.verify(&id), Err(Error::SignatureMismatch));
    signed.sign(&key);
    assert_ne!(signed.sig, UNSIGNED);
    assert_eq!(signed.verify(&id), Ok(()));
    let other = StreamId::new(*key.public(), 6);
    assert_eq!(signed.verify(&other), Err(Error::SignatureMismatch));
    let mut changed = signed;
    changed.head.len = 1;
    assert_eq!(changed.verify(&id), Err(Error::SignatureMismatch));
}

#[test]
fn test_verify_refuses_signature_with_high_bits() {
    let key = keypair(3);
    let id = StreamId::new(*key.public(), 5);
    let mut signed = SignedHead::new(id);
    signed.sign(&key);
    signed.sig[63] |= 0xe0;
    assert_eq!(signed.verify(&id), Err(Error::SignatureMismatch));
}

#[test]
fn test_verify_invalid_key() {
    let mut peer = [0u8; 32];
    let mut found = false;
    for first in 0..=255u8 {
        peer[0] = first;
        peer[1] = 1;
        if ed25519_dalek::PublicKey::from_bytes(&peer).is_err() {
            found = true;
            break;
        }
    }
    assert!(found);
    let id = StreamId::new(peer, 0);
    assert_eq!(SignedHead::new(id).verify(&id), Err(Error::InvalidKey));
}

#[test]
fn test_set_signature() {
    let key = keypair(4);
    let id = StreamId::new(*key.public(), 1);
    let mut good = SignedHead::new(id);
    good.sign(&key);
    let mut signed = SignedHead::new(id);
    assert_eq!(signed.set_signature([9; 64]), Err(Error::SignatureMismatch));
    assert_eq!(signed, SignedHead::new(id));
    assert_eq!(signed.set_signature(good.sig), Ok(()));
    assert_eq!(signed, good);
}

#[test]
fn test_lock_table() {
    let mut table = LockTable::new();
    let a = StreamId::new([1; 32], 1);
    let b = StreamId::new([1; 32], 2);
    assert!(!table.is_held(&a));
    let lock_a = table.acquire(a).unwrap();
    assert_eq!(*lock_a.id(), a);
    assert!(table.is_held(&a));
    assert!(!table.is_held(&b));
    assert_eq!(table.acquire(a).unwrap_err(), Error::Busy);
    let lock_b = table.acquire(b).unwrap();
    assert!(table.release(lock_a));
    assert!(!table.is_held(&a));
    assert!(table.is_held(&b));
    let again = table.acquire(a).unwrap();
    assert!(table.release(again));
    assert!(table.release(lock_b));
    assert!(!table.is_held(&b));
}

#[test]
fn test_empty_local_stream() {
    let storage = StreamStorage::open(keypair(1));
    let mut index = Index::new();
    let id = new_local(&storage, &mut index, 0);
    assert_eq!(id, StreamId::new(public_of(&[1; 32]), 0));
    assert_eq!(*storage.peer(), public_of(&[1; 32]));
    let entries: Vec<(Vec<u8>, Vec<u8>)> = index.clone().into_iter().collect();
    let listing = storage.streams(&entries);
    assert_eq!(listing.len(), 1);
    let (listed, head) = listing[0].clone().unwrap();
    assert_eq!(listed, id);
    assert_eq!(head.head.id, id);
    assert_eq!(head.head.len, 0);
    assert_eq!(head.head.hash, EMPTY_ROOT);
    assert_eq!(head.sig, [0u8; 64]);
}

#[test]
fn test_listing_in_order_and_damaged_entries() {
    let storage = StreamStorage::open(keypair(1));
    let mut index = Index::new();
    let first = new_local(&storage, &mut index, 0);
    let second = new_local(&storage, &mut index, 1);
    let mut entries: Vec<(Vec<u8>, Vec<u8>)> = index.clone().into_iter().collect();
    entries.push((vec![1, 2, 3], Stream::new(first).to_bytes()));
    entries.push((first.to_bytes(), vec![0; 10]));
    entries.push((first.to_bytes(), Stream::new(second).to_bytes()));
    let listing = storage.streams(&entries);
    assert_eq!(listing.len(), 5);
    let mut ids = vec![listing[0].clone().unwrap().0, listing[1].clone().unwrap().0];
    ids.sort_by_key(|id| id.stream());
    assert_eq!(ids, vec![first, second]);
    assert_eq!(listing[2], Err(Error::IntegrityError));
    assert_eq!(listing[3], Err(Error::IntegrityError));
    assert_eq!(listing[4], Err(Error::IntegrityError));
    assert_eq!(
        StreamStorage::entry(&entries[0].0, &entries[0].1),
        listing[0]
    );
}

#[test]
fn test_append_and_verify() {
    let mut storage = StreamStorage::open(keypair(1));
    let mut index = Index::new();
    let mut file = Vec::new();
    let (id, record) = hello(&mut storage, &mut index, &mut file);
    let (outboard, hash) = bao::encode::outboard(b"hello world");
    let head = Stream::head_from_bytes(stored(&index, &id).unwrap()).unwrap();
    assert_eq!(head, record.head);
    assert_eq!(head.head.id, id);
    assert_eq!(head.head.len, 11);
    assert_eq!(head.head.hash, *hash.as_bytes());
    assert_eq!(record.outboard, outboard);
    assert_eq!(head.verify(&id), Ok(()));
    let theirs = ed25519_dalek::PublicKey::from_bytes(id.peer()).unwrap();
    let sig = ed25519_dalek::Signature::from_bytes(&head.sig).unwrap();
    assert!(theirs.verify_strict(&head.head.to_bytes(), &sig).is_ok());
    assert_eq!(StreamStorage::get_stream(&id, stored(&index, &id)), Ok(record));
}

#[test]
fn test_append_twice() {
    let mut storage = StreamStorage::open(keypair(1));
    let mut index = Index::new();
    let mut file = Vec::new();
    let (id, _) = hello(&mut storage, &mut index, &mut file);
    let closed = append(&mut storage, &mut index, &mut file, &id, b", again");
    assert_eq!(closed.appended, b", again");
    let record = finish(&mut storage, &mut index, closed);
    let (outboard, hash) = bao::encode::outboard(b"hello world, again");
    assert_eq!(record.head.head.len, 18);
    assert_eq!(record.head.head.hash, *hash.as_bytes());
    assert_eq!(record.outboard, outboard);
    assert_eq!(record.head.verify(&id), Ok(()));
}

#[test]
fn test_append_many_chunks() {
    let mut storage = StreamStorage::open(keypair(1));
    let mut index = Index::new();
    let id = new_local(&storage, &mut index, 0);
    let mut writer = storage
        .append_local_stream(&id, stored(&index, &id), Vec::new())
        .unwrap();
    assert_eq!(writer.state(), WriterState::Open);
    assert_eq!(*writer.id(), id);
    assert_eq!(*writer.head(), SignedHead::new(id));
    let mut all = Vec::new();
    for round in 0..5u8 {
        let chunk = vec![round; 1000];
        writer.write(&chunk).unwrap();
        all.extend_from_slice(&chunk);
        assert_eq!(writer.state(), WriterState::Writing);
    }
    assert_eq!(writer.pending(), 5000);
    let closed = writer.commit();
    let (outboard, hash) = bao::encode::outboard(&all);
    assert_eq!(closed.state, WriterState::Committed);
    assert_eq!(closed.record.head.head.len, 5000);
    assert_eq!(closed.record.head.head.hash, *hash.as_bytes());
    assert_eq!(closed.record.outboard, outboard);
    assert_eq!(closed.appended, all);
}

#[test]
fn test_slice_roundtrip() {
    let mut storage = StreamStorage::open(keypair(1));
    let mut index = Index::new();
    let mut file = Vec::new();
    let (id, record) = hello(&mut storage, &mut index, &mut file);
    let mut slice = Slice::with_capacity(64);
    slice.data.extend_from_slice(b"left over");
    assert_eq!(
        storage.extract(&id, stored(&index, &id), &file, 0, 11, &mut slice),
        Ok(())
    );
    assert_eq!(slice.head, record.head);
    assert_eq!(slice.data.len(), 8 + 11);
    assert_eq!(slice.decode(0, 11), Ok(b"hello world".to_vec()));
    assert_eq!(slice.head.verify(&id), Ok(()));
    let sent = Slice::from_bytes(&slice.to_bytes()).unwrap();
    assert_eq!(sent.decode(0, 11), Ok(b"hello world".to_vec()));
}

#[test]
fn test_slice_of_every_range_of_a_long_stream() {
    let mut storage = StreamStorage::open(keypair(2));
    let mut index = Index::new();
    let mut file = Vec::new();
    let id = new_local(&storage, &mut index, 0);
    let data: Vec<u8> = (0..5000u32).map(|i| (i % 251) as u8).collect();
    let closed = append(&mut storage, &mut index, &mut file, &id, &data);
    finish(&mut storage, &mut index, closed);
    for (start, len) in [
        (0u64, 0u64),
        (0, 1),
        (0, 5000),
        (1023, 2),
        (1024, 1024),
        (2000, 3000),
        (4999, 1),
        (5000, 0),
        (3000, 0),
    ] {
        let mut slice = Slice::with_capacity(0);
        assert_eq!(
            storage.extract(&id, stored(&index, &id), &file, start, len, &mut slice),
            Ok(())
        );
        let expect = data[start as usize..(start + len) as usize].to_vec();
        assert_eq!(slice.decode(start, len), Ok(expect));
    }
}

#[test]
fn test_slice_tamper_detection() {
    let mut storage = StreamStorage::open(keypair(1));
    let mut index = Index::new();
    let mut file = Vec::new();
    let (id, _) = hello(&mut storage, &mut index, &mut file);
    let mut slice = Slice::with_capacity(0);
    storage
        .extract(&id, stored(&index, &id), &file, 0, 11, &mut slice)
        .unwrap();
    for position in 0..slice.data.len() {
        for bit in 0..8 {
            let mut bad = slice.clone();
            bad.data[position] ^= 1 << bit;
            assert_eq!(bad.decode(0, 11), Err(Error::IntegrityError));
        }
    }
    let mut bad = slice.clone();
    bad.head.head.hash[0] ^= 1;
    assert_eq!(bad.decode(0, 11), Err(Error::IntegrityError));
}

#[test]
fn test_slice_and_extract_errors() {
    let mut storage = StreamStorage::open(keypair(1));
    let mut index = Index::new();
    let mut file = Vec::new();
    let (id, record) = hello(&mut storage, &mut index, &mut file);
    let missing = StreamId::new(*id.peer(), 77);
    assert_eq!(
        storage.slice(&missing, stored(&index, &missing), 0, 0).err(),
        Some(Error::NotFound)
    );
    assert_eq!(
        storage.slice(&id, stored(&index, &id), 0, 12).err(),
        Some(Error::RangeOutOfBounds)
    );
    assert_eq!(
        storage.slice(&id, stored(&index, &id), 12, 0).err(),
        Some(Error::RangeOutOfBounds)
    );
    assert_eq!(
        storage.slice(&id, stored(&index, &id), u64::MAX, u64::MAX).err(),
        Some(Error::RangeOutOfBounds)
    );
    assert_eq!(
        storage.slice(&missing, stored(&index, &id), 0, 1).err(),
        Some(Error::IntegrityError)
    );
    assert_eq!(
        storage.slice(&id, Some(&[1, 2, 3]), 0, 1).err(),
        Some(Error::IntegrityError)
    );
    let mut slice = Slice::with_capacity(0);
    slice.data.push(1);
    slice.head = record.head;
    assert_eq!(
        storage.extract(&missing, stored(&index, &missing), &file, 0, 1, &mut slice),
        Err(Error::NotFound)
    );
    assert!(slice.data.is_empty());
    assert_eq!(slice.head, record.head);
    assert_eq!(
        storage.extract(&id, stored(&index, &id), &file, 5, 7, &mut slice),
        Err(Error::RangeOutOfBounds)
    );
    assert_eq!(
        storage.extract(&id, stored(&index, &id), &file[..10], 0, 5, &mut slice),
        Err(Error::IntegrityError)
    );
    let mut damaged = record.clone();
    damaged.outboard = vec![10, 0, 0, 0, 0, 0, 0, 0];
    assert_eq!(
        storage.extract(&id, Some(&damaged.to_bytes()), &file, 0, 5, &mut slice),
        Err(Error::IntegrityError)
    );
    damaged.outboard = vec![1, 2, 3];
    assert_eq!(
        storage.extract(&id, Some(&damaged.to_bytes()), &file, 0, 5, &mut slice),
        Err(Error::IntegrityError)
    );
}

#[test]
fn test_reader_reads_under_its_snapshot() {
    let mut storage = StreamStorage::open(keypair(1));
    let mut index = Index::new();
    let mut file = Vec::new();
    let (id, record) = hello(&mut storage, &mut index, &mut file);
    let reader = storage.slice(&id, stored(&index, &id), 6, 5).unwrap();
    assert_eq!(*reader.head(), record.head);
    assert_eq!(reader.start(), 6);
    assert_eq!(reader.len(), 5);
    assert_eq!(reader.read(&file), Ok(b"world".to_vec()));
    let closed = append(&mut storage, &mut index, &mut file, &id, b" and more");
    finish(&mut storage, &mut index, closed);
    assert_eq!(reader.read(&file), Ok(b"world".to_vec()));
    let slice = reader.extract(&file).unwrap();
    assert_eq!(slice.head, record.head);
    assert_eq!(slice.decode(6, 5), Ok(b"world".to_vec()));
    assert_eq!(reader.read(&file[..10]), Err(Error::IntegrityError));
    assert_eq!(
        StreamReader::new(record.clone(), 11, 1).err(),
        Some(Error::RangeOutOfBounds)
    );
    assert!(StreamReader::new(record, 11, 0).is_ok());
    assert_eq!(reader.deliver(None), Err(Error::IntegrityError));
    assert_eq!(reader.deliver(Some(vec![1])).unwrap().data, vec![1]);
}

fn replica(
    index: &mut Index,
    storage: &StreamStorage,
    id: &StreamId,
) {
    let record = storage
        .create_replicated_stream(id, stored(index, id))
        .unwrap();
    put(index, &record);
}

#[test]
fn test_replicated_append() {
    let mut origin = StreamStorage::open(keypair(1));
    let mut origin_index = Index::new();
    let mut origin_file = Vec::new();
    let (id, record) = hello(&mut origin, &mut origin_index, &mut origin_file);
    let mut slice = Slice::with_capacity(0);
    origin
        .extract(&id, stored(&origin_index, &id), &origin_file, 0, 11, &mut slice)
        .unwrap();

    let mut copy = StreamStorage::open(keypair(2));
    let mut index = Index::new();
    replica(&mut index, &copy, &id);
    let writer = copy
        .append_replicated_stream(&id, stored(&index, &id), Vec::new())
        .unwrap();
    let closed = writer.commit(&slice);
    assert_eq!(closed.state, WriterState::Committed);
    assert_eq!(closed.error, None);
    assert_eq!(closed.appended, b"hello world");
    assert_eq!(closed.record, record);
    let file = closed.appended.clone();
    finish(&mut copy, &mut index, closed);

    let more = append(&mut origin, &mut origin_index, &mut origin_file, &id, b"!!");
    let longer = finish(&mut origin, &mut origin_index, more);
    origin
        .extract(&id, stored(&origin_index, &id), &origin_file, 11, 2, &mut slice)
        .unwrap();
    let writer = copy
        .append_replicated_stream(&id, stored(&index, &id), file)
        .unwrap();
    let closed = writer.commit(&slice);
    assert_eq!(closed.state, WriterState::Committed);
    assert_eq!(closed.appended, b"!!");
    assert_eq!(closed.record, longer);
}

#[test]
fn test_replicated_append_rejects_bad_signature() {
    let mut origin = StreamStorage::open(keypair(1));
    let mut origin_index = Index::new();
    let mut origin_file = Vec::new();
    let (id, _) = hello(&mut origin, &mut origin_index, &mut origin_file);
    let mut slice = Slice::with_capacity(0);
    origin
        .extract(&id, stored(&origin_index, &id), &origin_file, 0, 11, &mut slice)
        .unwrap();
    slice.head.sign(&keypair(9));

    let mut copy = StreamStorage::open(keypair(2));
    let mut index = Index::new();
    replica(&mut index, &copy, &id);
    let before = index.clone();
    let writer = copy
        .append_replicated_stream(&id, stored(&index, &id), Vec::new())
        .unwrap();
    let closed = writer.commit(&slice);
    assert_eq!(closed.state, WriterState::Aborted);
    assert_eq!(closed.error, Some(Error::SignatureMismatch));
    assert!(closed.appended.is_empty());
    assert_eq!(closed.record, Stream::new(id));
    finish(&mut copy, &mut index, closed);
    assert_eq!(index, before);
}

#[test]
fn test_replicated_append_rejects_bad_data() {
    let mut origin = StreamStorage::open(keypair(1));
    let mut origin_index = Index::new();
    let mut origin_file = Vec::new();
    let (id, _) = hello(&mut origin, &mut origin_index, &mut origin_file);
    let mut slice = Slice::with_capacity(0);
    origin
        .extract(&id, stored(&origin_index, &id), &origin_file, 0, 11, &mut slice)
        .unwrap();
    let last = slice.data.len() - 1;
    slice.data[last] ^= 1;

    let mut copy = StreamStorage::open(keypair(2));
    let mut index = Index::new();
    replica(&mut index, &copy, &id);
    let before = index.clone();
    let writer = copy
        .append_replicated_stream(&id, stored(&index, &id), Vec::new())
        .unwrap();
    let closed = writer.commit(&slice);
    assert_eq!(closed.state, WriterState::Aborted);
    assert_eq!(closed.error, Some(Error::IntegrityError));
    assert!(closed.appended.is_empty());
    assert_eq!(closed.record, Stream::new(id));
    finish(&mut copy, &mut index, closed);
    assert_eq!(index, before);
}

#[test]
fn test_replicated_append_rejects_head_of_another_stream_and_short_head() {
    let mut origin = StreamStorage::open(keypair(1));
    let mut origin_index = Index::new();
    let mut origin_file = Vec::new();
    let (id, _) = hello(&mut origin, &mut origin_index, &mut origin_file);
    let mut slice = Slice::with_capacity(0);
    origin
        .extract(&id, stored(&origin_index, &id), &origin_file, 0, 11, &mut slice)
        .unwrap();

    let other = StreamId::new(*id.peer(), 1);
    let mut copy = StreamStorage::open(keypair(2));
    let mut index = Index::new();
    replica(&mut index, &copy, &other);
    let writer = copy
        .append_replicated_stream(&other, stored(&index, &other), Vec::new())
        .unwrap();
    let closed = writer.commit(&slice);
    assert_eq!(closed.error, Some(Error::SignatureMismatch));
    copy.release(closed.lock);

    replica(&mut index, &copy, &id);
    let writer = copy
        .append_replicated_stream(&id, stored(&index, &id), Vec::new())
        .unwrap();
    let closed = writer.commit(&slice);
    assert_eq!(closed.state, WriterState::Committed);
    let file = closed.appended.clone();
    finish(&mut copy, &mut index, closed);
    let mut empty = Slice::with_capacity(0);
    let fresh = new_local(&origin, &mut origin_index, 5);
    origin
        .extract(&fresh, stored(&origin_index, &fresh), &[], 0, 0, &mut empty)
        .unwrap();
    let writer = copy
        .append_replicated_stream(&id, stored(&index, &id), file)
        .unwrap();
    let closed = writer.commit(&empty);
    assert_eq!(closed.state, WriterState::Aborted);
    assert_eq!(closed.error, Some(Error::SignatureMismatch));
}

#[test]
fn test_settle_and_seal() {
    let mut storage = StreamStorage::open(keypair(1));
    let mut index = Index::new();
    let id = new_local(&storage, &mut index, 0);
    let mut writer = storage
        .append_local_stream(&id, stored(&index, &id), Vec::new())
        .unwrap();
    writer.write(b"abc").unwrap();
    let closed = writer.seal((vec![3, 0, 0, 0, 0, 0, 0, 0], [4; 32]), [5; 64], true);
    assert_eq!(closed.state, WriterState::Committed);
    assert_eq!(closed.record.head.head.len, 3);
    assert_eq!(closed.record.head.head.hash, [4; 32]);
    assert_eq!(closed.record.head.sig, [5; 64]);
    assert_eq!(closed.record.outboard, vec![3, 0, 0, 0, 0, 0, 0, 0]);
    assert_eq!(closed.appended, b"abc");
    storage.release(closed.lock);
    let writer = storage
        .append_local_stream(&id, stored(&index, &id), Vec::new())
        .unwrap();
    let closed = writer.seal((vec![], [4; 32]), [5; 64], false);
    assert_eq!(closed.state, WriterState::Aborted);
    assert_eq!(closed.error, Some(Error::SignatureMismatch));
    assert_eq!(closed.record, Stream::new(id));
    storage.release(closed.lock);

    let mut head = SignedHead::new(id);
    head.head.len = 2;
    head.head.hash = [8; 32];
    let cases: Vec<(Result<(), Error>, Option<Vec<u8>>, Option<(Vec<u8>, [u8; 32])>, Option<Error>)> = vec![
        (Ok(()), Some(vec![1, 2]), Some((vec![9], [8; 32])), None),
        (Err(Error::InvalidKey), Some(vec![1, 2]), Some((vec![9], [8; 32])), Some(Error::InvalidKey)),
        (Ok(()), None, Some((vec![9], [8; 32])), Some(Error::IntegrityError)),
        (Ok(()), Some(vec![1]), Some((vec![9], [8; 32])), Some(Error::IntegrityError)),
        (Ok(()), Some(vec![1, 2]), None, Some(Error::IntegrityError)),
        (Ok(()), Some(vec![1, 2]), Some((vec![9], [7; 32])), Some(Error::IntegrityError)),
    ];
    for (verdict, plain, tree, error) in cases {
        let writer = storage
            .append_replicated_stream(&id, stored(&index, &id), Vec::new())
            .unwrap();
        let closed = writer.settle(head, verdict, plain, tree);
        assert_eq!(closed.error, error);
        if error.is_none() {
            assert_eq!(closed.state, WriterState::Committed);
            assert_eq!(closed.record.head, head);
            assert_eq!(closed.record.outboard, vec![9]);
            assert_eq!(closed.appended, vec![1, 2]);
        } else {
            assert_eq!(closed.state, WriterState::Aborted);
            assert_eq!(closed.record, Stream::new(id));
            assert!(closed.appended.is_empty());
        }
        storage.release(closed.lock);
    }
}

#[test]
fn test_busy() {
    let mut storage = StreamStorage::open(keypair(1));
    let mut index = Index::new();
    let id = new_local(&storage, &mut index, 0);
    let first = storage
        .append_local_stream(&id, stored(&index, &id), Vec::new())
        .unwrap();
    assert!(storage.is_busy(&id));
    assert_eq!(
        storage
            .append_local_stream(&id, stored(&index, &id), Vec::new())
            .err(),
        Some(Error::Busy)
    );
    assert_eq!(
        storage
            .append_replicated_stream(&id, stored(&index, &id), Vec::new())
            .err(),
        Some(Error::Busy)
    );
    assert_eq!(
        storage.remove_stream(&id, stored(&index, &id)).err(),
        Some(Error::Busy)
    );
    assert_eq!(
        storage.append_local_stream(&id, None, Vec::new()).err(),
        Some(Error::Busy)
    );
    let closed = first.abort();
    assert_eq!(closed.state, WriterState::Aborted);
    assert_eq!(closed.error, None);
    storage.release(closed.lock);
    assert!(!storage.is_busy(&id));
    let second = storage.append_local_stream(&id, stored(&index, &id), Vec::new());
    assert!(second.is_ok());
}

#[test]
fn test_other_streams_are_not_busy() {
    let mut storage = StreamStorage::open(keypair(1));
    let mut index = Index::new();
    let one = new_local(&storage, &mut index, 0);
    let two = new_local(&storage, &mut index, 1);
    let first = storage.append_local_stream(&one, stored(&index, &one), Vec::new());
    let second = storage.append_local_stream(&two, stored(&index, &two), Vec::new());
    assert!(first.is_ok());
    assert!(second.is_ok());
}

#[test]
fn test_append_errors() {
    let mut storage = StreamStorage::open(keypair(1));
    let mut index = Index::new();
    let mut file = Vec::new();
    let (id, record) = hello(&mut storage, &mut index, &mut file);
    let missing = StreamId::new(*id.peer(), 9);
    assert_eq!(
        storage.append_local_stream(&missing, None, Vec::new()).err(),
        Some(Error::NotFound)
    );
    assert_eq!(
        storage.append_replicated_stream(&missing, None, Vec::new()).err(),
        Some(Error::NotFound)
    );
    let foreign = StreamId::new(public_of(&[5; 32]), 0);
    replica(&mut index, &storage, &foreign);
    assert_eq!(
        storage
            .append_local_stream(&foreign, stored(&index, &foreign), Vec::new())
            .err(),
        Some(Error::NotLocal)
    );
    assert!(!storage.is_busy(&foreign));
    assert_eq!(
        storage
            .append_local_stream(&id, Some(&record.to_bytes()[1..]), file.clone())
            .err(),
        Some(Error::IntegrityError)
    );
    assert_eq!(
        storage
            .append_local_stream(&missing, stored(&index, &id), file.clone())
            .err(),
        Some(Error::IntegrityError)
    );
    assert_eq!(
        storage
            .append_local_stream(&id, stored(&index, &id), file[..10].to_vec())
            .err(),
        Some(Error::IntegrityError)
    );
    assert!(!storage.is_busy(&id));
}

#[test]
fn test_create_replicated_stream_already_exists() {
    let storage = StreamStorage::open(keypair(1));
    let mut index = Index::new();
    let id = StreamId::new(public_of(&[5; 32]), 3);
    let record = storage.create_replicated_stream(&id, None).unwrap();
    assert_eq!(record, Stream::new(id));
    put(&mut index, &record);
    assert_eq!(
        storage.create_replicated_stream(&id, stored(&index, &id)),
        Err(Error::AlreadyExists)
    );
}

#[test]
fn test_recovery() {
    let mut storage = StreamStorage::open(keypair(1));
    let mut index = Index::new();
    let id = new_local(&storage, &mut index, 0);
    let before = index.clone();
    let mut file: Vec<u8> = Vec::new();
    let mut writer = storage
        .append_local_stream(&id, stored(&index, &id), file.clone())
        .unwrap();
    let chunk = vec![0x42u8; 1 << 20];
    writer.write(&chunk).unwrap();
    file.extend_from_slice(&chunk);
    drop(writer);

    let mut storage = StreamStorage::open(keypair(1));
    assert_eq!(index, before);
    let cut = StreamStorage::reconcile(stored(&index, &id).unwrap(), file.len() as u64);
    assert_eq!(cut, Ok(Some(0)));
    file.truncate(0);
    assert_eq!(
        StreamStorage::reconcile(stored(&index, &id).unwrap(), file.len() as u64),
        Ok(None)
    );
    let entries: Vec<(Vec<u8>, Vec<u8>)> = index.clone().into_iter().collect();
    let listing = storage.streams(&entries);
    assert_eq!(listing, vec![Ok((id, SignedHead::new(id)))]);
    assert!(storage
        .append_local_stream(&id, stored(&index, &id), file)
        .is_ok());
}

#[test]
fn test_writer_drops_what_no_head_counts() {
    let mut storage = StreamStorage::open(keypair(1));
    let mut index = Index::new();
    let mut file = Vec::new();
    let (id, _) = hello(&mut storage, &mut index, &mut file);
    let mut longer = file.clone();
    longer.extend_from_slice(b" never committed");
    let mut writer = storage
        .append_local_stream(&id, stored(&index, &id), longer)
        .unwrap();
    assert_eq!(writer.pending(), 0);
    writer.write(b"!").unwrap();
    let closed = writer.commit();
    let (_, hash) = bao::encode::outboard(b"hello world!");
    assert_eq!(closed.record.head.head.len, 12);
    assert_eq!(closed.record.head.head.hash, *hash.as_bytes());
}

#[test]
fn test_reconcile() {
    let mut record = Stream::new(StreamId::new([1; 32], 0));
    record.head.head.len = 100;
    let bytes = record.to_bytes();
    assert_eq!(StreamStorage::reconcile(&bytes, 100), Ok(None));
    assert_eq!(StreamStorage::reconcile(&bytes, 101), Ok(Some(100)));
    assert_eq!(
        StreamStorage::reconcile(&bytes, 99),
        Err(Error::IntegrityError)
    );
    assert_eq!(
        StreamStorage::reconcile(&bytes[..20], 100),
        Err(Error::IntegrityError)
    );
}

#[test]
fn test_remove() {
    let mut storage = StreamStorage::open(keypair(1));
    let mut index = Index::new();
    let mut file = Vec::new();
    let (id, _) = hello(&mut storage, &mut index, &mut file);
    let missing = StreamId::new(*id.peer(), 9);
    assert_eq!(
        storage.remove_stream(&missing, stored(&index, &missing)).err(),
        Some(Error::NotFound)
    );
    let lock = storage.remove_stream(&id, stored(&index, &id)).unwrap();
    assert_eq!(*lock.id(), id);
    assert!(storage.is_busy(&id));
    file.clear();
    index.remove(&id.to_bytes());
    storage.release(lock);
    assert!(!storage.is_busy(&id));
    let entries: Vec<(Vec<u8>, Vec<u8>)> = index.clone().into_iter().collect();
    assert!(storage.streams(&entries).is_empty());
    assert_eq!(
        storage.slice(&id, stored(&index, &id), 0, 0).err(),
        Some(Error::NotFound)
    );
    let mut slice = Slice::with_capacity(0);
    assert_eq!(
        storage.extract(&id, stored(&index, &id), &file, 0, 0, &mut slice),
        Err(Error::NotFound)
    );
    assert_eq!(
        storage.remove_stream(&id, stored(&index, &id)).err(),
        Some(Error::NotFound)
    );
}

#[test]
fn test_local_commit_fails_where_the_key_does_not_fit() {
    let secret = [1u8; 32];
    let public = public_of(&[2; 32]);
    let mut storage = StreamStorage::open(Keypair::new(secret, public).unwrap());
    let mut index = Index::new();
    let id = new_local(&storage, &mut index, 0);
    let mut writer = storage
        .append_local_stream(&id, stored(&index, &id), Vec::new())
        .unwrap();
    writer.write(b"x").unwrap();
    let closed = writer.commit();
    assert_eq!(closed.state, WriterState::Aborted);
    assert_eq!(closed.error, Some(Error::SignatureMismatch));
    assert_eq!(closed.record, Stream::new(id));
    assert!(closed.appended.is_empty());
}

#[test]
fn test_stream_path_is_the_canonical_text() {
    let id = StreamId::new([0; 32], 42);
    assert_eq!(StreamStorage::stream_path(&id), id.to_string());
    assert_eq!(StreamStorage::stream_path(&id), format!("{}.42", "A".repeat(43)));
}
