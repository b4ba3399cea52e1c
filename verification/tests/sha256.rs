use sha_hash::sha256::{
    b_sigma0_256, b_sigma1_256, can_pad, ch, compress, digest, expand, hash, maj, pad_message,
    s_sigma0_256, s_sigma1_256, SHA_256, SHA_256_INIT,
};
use sha_hash::sha256_hash;
use std::collections::HashMap;

const TWO_PART: &str = "abcdbcdecdefdefgefghfghighijhijkijkljklmklmnlmnomnopnopq";
const MULTI_BLOCK: &str = "abcdefghbcdefghicdefghijdefghijkefghijklfghijklmghijklmnhijklmnoijklmnopjklmnopqklmnopqrlmnopqrsmnopqrstnopqrstu";

const EMPTY_DIGEST: [u32; 8] = [
    0xe3b0c442, 0x98fc1c14, 0x9afbf4c8, 0x996fb924, 0x27ae41e4, 0x649b934c, 0xa495991b, 0x7852b855,
];
const ABC_DIGEST: [u32; 8] = [
    0xba7816bf, 0x8f01cfea, 0x414140de, 0x5dae2223, 0xb00361a3, 0x96177a9c, 0xb410ff61, 0xf20015ad,
];
const TWO_PART_DIGEST: [u32; 8] = [
    0x248d6a61, 0xd20638b8, 0xe5c02693, 0x0c3e6039, 0xa33ce459, 0x64ff2167, 0xf6ecedd4, 0x19db06c1,
];
const MULTI_BLOCK_DIGEST: [u32; 8] = [
    0xcf5b16a7, 0x78af8380, 0x036ce59e, 0x7b049237, 0x0b249b11, 0xe8f07a51, 0xafac4503, 0x7afee9d1,
];

#[test]
fn test_sha256_hash() {
    let mut message_hashes: HashMap<&str, [u32; 8]> = HashMap::new();
    message_hashes.insert(
        "",
        [
            0xe3b0c442, 0x98fc1c14, 0x9afbf4c8, 0x996fb924, 0x27ae41e4, 0x649b934c, 0xa495991b,
            0x7852b855,
        ],
    );
    message_hashes.insert(
        "abc",
        [
            0xba7816bf, 0x8f01cfea, 0x414140de, 0x5dae2223, 0xb00361a3, 0x96177a9c, 0xb410ff61,
            0xf20015ad,
        ],
    );
    message_hashes.insert(
        "abcdbcdecdefdefgefghfghighijhijkijkljklmklmnlmnomnopnopq",
        [
            0x248d6a61, 0xd20638b8, 0xe5c02693, 0x0c3e6039, 0xa33ce459, 0x64ff2167, 0xf6ecedd4,
            0x19db06c1,
        ],
    );
    message_hashes.insert(
        "abcdefghbcdefghicdefghijdefghijkefghijklfghijklmghijklmnhijklmnoijklmnopjklmnopqklmnopqrlmnopqrsmnopqrstnopqrstu",
        [0xcf5b16a7, 0x78af8380, 0x036ce59e, 0x7b049237, 0x0b249b11, 0xe8f07a51, 0xafac4503, 0x7afee9d1,]
    );

    for (msg, hash) in message_hashes.iter() {
        let test_hashes = sha_hash::sha256::hash(&msg.as_bytes());

        for (i, test_hash) in test_hashes.iter().enumerate() {
            println!("Test {}", i);
            assert_eq!(hash[i], test_hash[i]);
        }
    }
}

#[test]
fn sha256_known_vectors_word_for_word() {
    assert_eq!(hash(b"abc"), Some(ABC_DIGEST));
    assert_eq!(hash(TWO_PART.as_bytes()), Some(TWO_PART_DIGEST));
    assert_eq!(hash(MULTI_BLOCK.as_bytes()), Some(MULTI_BLOCK_DIGEST));
}

#[test]
fn sha256_empty_message_has_no_hash() {
    assert_eq!(hash(b""), None);
    assert_eq!(hash(&[]), None);
    assert_eq!(sha256_hash(b""), None);
}

#[test]
fn sha256_digest_of_the_empty_message() {
    assert_eq!(digest(b""), EMPTY_DIGEST);
}

#[test]
fn sha256_digest_agrees_with_hash() {
    assert_eq!(digest(b"abc"), ABC_DIGEST);
    assert_eq!(Some(digest(TWO_PART.as_bytes())), hash(TWO_PART.as_bytes()));
    assert_eq!(Some(digest(MULTI_BLOCK.as_bytes())), hash(MULTI_BLOCK.as_bytes()));
}

#[test]
fn sha256_entry_point_is_hash() {
    assert_eq!(sha256_hash(b"abc"), Some(ABC_DIGEST));
    assert_eq!(sha256_hash(MULTI_BLOCK.as_bytes()), Some(MULTI_BLOCK_DIGEST));
}

#[test]
fn sha256_single_byte_messages() {
    assert_eq!(
        hash(b"a"),
        Some([
            0xca978112, 0xca1bbdca, 0xfac231b3, 0x9a23dc4d, 0xa786eff8, 0x147c4e72, 0xb9807785,
            0xafee48bb,
        ])
    );
    assert_eq!(
        hash(&[0u8]),
        Some([
            0x6e340b9c, 0xffb37a98, 0x9ca544e6, 0xbb780a2c, 0x78901d3f, 0xb3373876, 0x8511a306,
            0x17afa01d,
        ])
    );
}

#[test]
fn sha256_messages_around_the_block_boundary() {
    let a = [b'a'; 120];
    assert_eq!(
        hash(&a[..55]),
        Some([
            0x9f4390f8, 0xd30c2dd9, 0x2ec9f095, 0xb65e2b9a, 0xe9b0a925, 0xa5258e24, 0x1c9f1e91,
            0x0f734318,
        ])
    );
    assert_eq!(
        hash(&a[..56]),
        Some([
            0xb35439a4, 0xac6f0948, 0xb6d6f9e3, 0xc6af0f5f, 0x590ce20f, 0x1bde7090, 0xef797068,
            0x6ec6738a,
        ])
    );
    assert_eq!(
        hash(&a[..64]),
        Some([
            0xffe054fe, 0x7ae0cb6d, 0xc65c3af9, 0xb61d5209, 0xf439851d, 0xb43d0ba5, 0x997337df,
            0x154668eb,
        ])
    );
    assert_eq!(
        hash(&a[..119]),
        Some([
            0x31eba51c, 0x313a5c08, 0x226adf18, 0xd4a359cf, 0xdfd8d2e8, 0x16b13f4a, 0xf952f7ea,
            0x6584dcfb,
        ])
    );
    assert_eq!(
        hash(&a[..120]),
        Some([
            0x2f3d3354, 0x32c70b58, 0x0af0e8e1, 0xb3674a7c, 0x020d683a, 0xa5f73aaa, 0xedfdc55a,
            0xf904c21c,
        ])
    );
}

#[test]
fn sha256_one_million_a() {
    let msg = vec![b'a'; 1_000_000];
    assert_eq!(
        hash(&msg),
        Some([
            0xcdc76e5c, 0x9914fb92, 0x81a1c7e2, 0x84d73e67, 0xf1809a48, 0xa497200e, 0x046d39cc,
            0xc7112cd0,
        ])
    );
}

#[test]
fn sha256_hash_is_deterministic() {
    let first = hash(MULTI_BLOCK.as_bytes());
    let second = hash(MULTI_BLOCK.as_bytes());
    assert_eq!(first, second);
    let copy: Vec<u8> = MULTI_BLOCK.as_bytes().to_vec();
    assert_eq!(hash(&copy), first);
    assert_ne!(hash(b"abc"), hash(b"abd"));
}

#[test]
fn sha256_digest_has_eight_words() {
    for len in [1usize, 3, 55, 56, 64, 200, 1000] {
        let msg = vec![0x5au8; len];
        assert_eq!(hash(&msg).unwrap().len(), 8);
    }
    assert_eq!(digest(b"").len(), 8);
}

#[test]
fn sha256_pad_abc_byte_for_byte() {
    let mut expected = vec![0u8; 64];
    expected[0] = 0x61;
    expected[1] = 0x62;
    expected[2] = 0x63;
    expected[3] = 0x80;
    expected[63] = 0x18;
    assert_eq!(pad_message(b"abc"), expected);
}

#[test]
fn sha256_pad_of_the_empty_message() {
    let mut expected = vec![0u8; 64];
    expected[0] = 0x80;
    assert_eq!(pad_message(b""), expected);
}

#[test]
fn sha256_pad_lengths_at_the_edges() {
    let a = [b'a'; 200];
    assert_eq!(pad_message(&a[..0]).len(), 64);
    assert_eq!(pad_message(&a[..1]).len(), 64);
    assert_eq!(pad_message(&a[..55]).len(), 64);
    assert_eq!(pad_message(&a[..56]).len(), 128);
    assert_eq!(pad_message(&a[..63]).len(), 128);
    assert_eq!(pad_message(&a[..64]).len(), 128);
    assert_eq!(pad_message(&a[..119]).len(), 128);
    assert_eq!(pad_message(&a[..120]).len(), 192);
    assert_eq!(pad_message(&a[..183]).len(), 192);
    assert_eq!(pad_message(&a[..184]).len(), 256);
}

#[test]
fn sha256_pad_of_55_bytes_has_no_zero_byte() {
    let msg = [0xffu8; 55];
    let padded = pad_message(&msg);
    assert_eq!(padded.len(), 64);
    assert_eq!(&padded[..55], &msg[..]);
    assert_eq!(padded[55], 0x80);
    assert_eq!(&padded[56..], &[0, 0, 0, 0, 0, 0, 0x01, 0xb8]);
}

#[test]
fn sha256_pad_of_56_bytes_takes_a_second_block() {
    let msg = [0xffu8; 56];
    let padded = pad_message(&msg);
    assert_eq!(padded.len(), 128);
    assert_eq!(&padded[..56], &msg[..]);
    assert_eq!(padded[56], 0x80);
    assert!(padded[57..120].iter().all(|b| *b == 0));
    assert_eq!(&padded[120..], &[0, 0, 0, 0, 0, 0, 0x01, 0xc0]);
}

#[test]
fn sha256_pad_is_whole_blocks() {
    for len in 0..300usize {
        let msg = vec![0xa5u8; len];
        let padded = pad_message(&msg);
        assert_eq!(padded.len() * 8 % 512, 0);
        assert!(padded.len() >= len + 9);
        assert!(padded.len() < len + 9 + 64);
    }
}

#[test]
fn sha256_pad_layout() {
    for len in 0..300usize {
        let msg: Vec<u8> = (0..len).map(|i| (i % 251) as u8 | 1).collect();
        let padded = pad_message(&msg);
        let n = padded.len();
        assert_eq!(&padded[..len], &msg[..]);
        assert_eq!(padded[len], 0x80);
        assert!(padded[len + 1..n - 8].iter().all(|b| *b == 0));
        assert_eq!(&padded[n - 8..], &((len as u64) * 8).to_be_bytes());
    }
}

#[test]
fn sha256_pad_length_field_of_a_long_message() {
    let msg = vec![0u8; 0x2_0001];
    let padded = pad_message(&msg);
    let n = padded.len();
    assert_eq!(&padded[n - 8..], &[0, 0, 0, 0, 0, 0x10, 0x00, 0x08]);
}

#[test]
fn sha256_can_pad_small_and_huge() {
    assert!(can_pad(0));
    assert!(can_pad(3));
    assert!(can_pad(1 << 20));
    let limit = isize::MAX as usize;
    assert!(!can_pad(usize::MAX));
    assert!(!can_pad(limit));
    assert!(!can_pad(limit - 8));
    // the largest multiple of 64 below the limit is the longest padding
    let longest = limit - 63;
    assert!(can_pad(longest - 9));
    assert!(!can_pad(longest - 8));
}

#[test]
fn sha256_ch_and_maj() {
    assert_eq!(ch(0xff00ff00, 0x12345678, 0x9abcdef0), 0x12bc56f0);
    assert_eq!(maj(0xff00ff00, 0x12345678, 0x9abcdef0), 0x9a34de70);
    assert_eq!(ch(0xffffffff, 0x12345678, 0x9abcdef0), 0x12345678);
    assert_eq!(ch(0, 0x12345678, 0x9abcdef0), 0x9abcdef0);
    assert_eq!(maj(0, 0, 0xffffffff), 0);
    assert_eq!(maj(0xffffffff, 0, 0xffffffff), 0xffffffff);
}

#[test]
fn sha256_sigma_values() {
    assert_eq!(s_sigma0_256(0x12345678), 0xe7fce6ee);
    assert_eq!(s_sigma1_256(0x12345678), 0xa1f78649);
    assert_eq!(b_sigma0_256(0x12345678), 0x66146474);
    assert_eq!(b_sigma1_256(0x12345678), 0x3561abda);
    assert_eq!(s_sigma0_256(0), 0);
    assert_eq!(s_sigma1_256(0), 0);
    assert_eq!(b_sigma0_256(0xffffffff), 0xffffffff);
    assert_eq!(b_sigma1_256(0xffffffff), 0xffffffff);
    // a single set bit shows each rotation and shift by itself
    assert_eq!(s_sigma0_256(0x8000_0000), (1 << 24) | (1 << 13) | (1 << 28));
    assert_eq!(s_sigma1_256(0x8000_0000), (1 << 14) | (1 << 12) | (1 << 21));
    assert_eq!(b_sigma0_256(0x8000_0000), (1 << 29) | (1 << 18) | (1 << 9));
    assert_eq!(b_sigma1_256(0x8000_0000), (1 << 25) | (1 << 20) | (1 << 6));
}

#[test]
fn sha256_expand_reads_words_big_endian() {
    let mut block = [0u8; 64];
    for (i, b) in block.iter_mut().enumerate() {
        *b = i as u8;
    }
    let schedule = expand(&block);
    assert_eq!(schedule[0], 0x00010203);
    assert_eq!(schedule[1], 0x04050607);
    assert_eq!(schedule[15], 0x3c3d3e3f);
}

#[test]
fn sha256_expand_abc_block() {
    let padded = pad_message(b"abc");
    let schedule = expand(&padded);
    assert_eq!(schedule.len(), 64);
    assert_eq!(schedule[0], 0x61626380);
    for t in 1..15 {
        assert_eq!(schedule[t], 0);
    }
    assert_eq!(schedule[15], 0x00000018);
    assert_eq!(schedule[16], 0x61626380);
    assert_eq!(schedule[17], 0x000f0000);
    assert_eq!(schedule[18], 0x7da86405);
    assert_eq!(schedule[19], 0x600003c6);
    assert_eq!(schedule[31], 0xd3b7973b);
    assert_eq!(schedule[62], 0xeeaba2cc);
    assert_eq!(schedule[63], 0x12b1edeb);
}

#[test]
fn sha256_expand_follows_the_recurrence() {
    let padded = pad_message(MULTI_BLOCK.as_bytes());
    let schedule = expand(&padded[64..128]);
    for t in 16..64 {
        let expected = s_sigma1_256(schedule[t - 2])
            .wrapping_add(schedule[t - 7])
            .wrapping_add(s_sigma0_256(schedule[t - 15]))
            .wrapping_add(schedule[t - 16]);
        assert_eq!(schedule[t], expected);
    }
}

#[test]
fn sha256_compress_abc_block() {
    let padded = pad_message(b"abc");
    let schedule = expand(&padded);
    assert_eq!(compress(&SHA_256_INIT, &schedule), ABC_DIGEST);
}

#[test]
fn sha256_blocks_are_chained() {
    let padded = pad_message(MULTI_BLOCK.as_bytes());
    assert_eq!(padded.len(), 128);
    let after_first = compress(&SHA_256_INIT, &expand(&padded[..64]));
    assert_eq!(
        after_first,
        [
            0x4f197ddb, 0xfe54901e, 0xd6f6a0e1, 0xfc0cdb7b, 0xdcbccd69, 0x120b4536, 0x5b08d4e6,
            0x022eec70,
        ]
    );
    let after_second = compress(&after_first, &expand(&padded[64..]));
    assert_eq!(after_second, MULTI_BLOCK_DIGEST);
    assert_eq!(hash(MULTI_BLOCK.as_bytes()), Some(after_second));
    // starting the second block anywhere else gives another digest
    let unchained = compress(&SHA_256_INIT, &expand(&padded[64..]));
    assert_ne!(unchained, MULTI_BLOCK_DIGEST);
}

#[test]
fn sha256_chaining_over_many_blocks() {
    let msg: Vec<u8> = (0..1000u32).map(|i| (i * 7 + 3) as u8).collect();
    let padded = pad_message(&msg);
    let mut chaining = SHA_256_INIT;
    for block in padded.chunks(64) {
        chaining = compress(&chaining, &expand(block));
    }
    assert_eq!(Some(chaining), hash(&msg));
}

#[test]
fn sha256_constants() {
    assert_eq!(SHA_256_INIT[0], 0x6a09e667);
    assert_eq!(SHA_256_INIT[7], 0x5be0cd19);
    assert_eq!(SHA_256.len(), 64);
    assert_eq!(SHA_256[0], 0x428a2f98);
    assert_eq!(SHA_256[63], 0xc67178f2);
}
