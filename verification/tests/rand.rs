use roulette_game::env::{BlockInfo, ContractInfo, Env, MessageInfo, Timestamp};
use roulette_game::rand::{build_entropy, new_entropy, rand_generator, winning_number};

fn env(height: u64, nanos: u64) -> Env {
    Env {
        block: BlockInfo { height, time: Timestamp { nanos }, chain_id: "chain-1".to_string() },
        contract: ContractInfo { address: "roulette".to_string() },
    }
}

fn caller(sender: &str) -> MessageInfo {
    MessageInfo { sender: sender.to_string(), funds: vec![] }
}

#[test]
fn the_entropy_is_height_time_caller_and_salt_in_this_order() {
    let buf = build_entropy(0x0102030405060708, 0x1112131415161718, "ab", &[9, 8]);
    assert_eq!(
        buf,
        vec![
            1, 2, 3, 4, 5, 6, 7, 8, 0x11, 0x12, 0x13, 0x14, 0x15, 0x16, 0x17, 0x18, b'a', b'b',
            9, 8
        ]
    );
    assert_eq!(build_entropy(0, u64::MAX, "", &[]), {
        let mut v = vec![0u8; 8];
        v.extend_from_slice(&[255u8; 8]);
        v
    });
}

#[test]
fn the_entropy_bytes_are_hashed_and_drawn_from_the_stream() {
    let bytes = new_entropy(&caller("distributor"), &env(7, 121_000_000_000), b"seed", b"salt");
    assert_eq!(
        bytes,
        [
            204, 142, 217, 140, 245, 234, 207, 207, 84, 224, 42, 96, 37, 42, 104, 141, 215, 75,
            91, 86, 8, 10, 20, 52, 52, 43, 85, 206, 149, 235, 26, 164
        ]
    );
}

#[test]
fn the_draw_is_the_same_for_the_same_block_and_caller() {
    assert_eq!(rand_generator(&caller("distributor"), &env(0, 121_000_000_000)), 15);
    assert_eq!(rand_generator(&caller("distributor"), &env(0, 122_000_000_000)), 34);
    assert_eq!(rand_generator(&caller("distributor"), &env(12345, 1571797419879305533)), 21);
    assert_eq!(rand_generator(&caller("user1"), &env(1, 0)), 33);
    for height in 0..50u64 {
        let first = rand_generator(&caller("distributor"), &env(height, 17));
        let second = rand_generator(&caller("distributor"), &env(height, 17));
        assert_eq!(first, second);
        assert!(first < 38);
    }
}

#[test]
fn a_drawn_word_is_reduced_to_the_wheel() {
    assert_eq!(winning_number(0), 0);
    assert_eq!(winning_number(37), 37);
    assert_eq!(winning_number(38), 0);
    assert_eq!(winning_number(3826121139), 15);
    assert_eq!(winning_number(u32::MAX), 4294967295 % 38);
}
