use game_escrow::account::{RecordHandle, Runtime, RuntimeRead};
use game_escrow::error::EscrowError;
use game_escrow::identity::Identity;
use game_escrow::instruction::InitEscData;
use game_escrow::processor::Processor;
use game_escrow::slots::AssetSlots;
use game_escrow::state::{Escrow, GameAcc};

const RENT: u64 = 1_000_000;
const T0: i64 = 1_700_000_000;

fn id(byte: u8) -> Identity {
    Identity::new_from_array([byte; 32])
}

fn program() -> Identity {
    id(0xee)
}

fn wallet(key: u8, lamports: u64) -> RecordHandle {
    RecordHandle {
        key: id(key),
        owner: id(0),
        is_signer: true,
        is_writable: true,
        lamports,
        data: Vec::new(),
    }
}

fn record(key: u8, lamports: u64, data: Vec<u8>) -> RecordHandle {
    RecordHandle { key: id(key), owner: program(), is_signer: false, is_writable: true, lamports, data }
}

fn game_acc(owner: u8, owned: &[u64], rented: &[u64]) -> GameAcc {
    let mut o = [0u64; 20];
    o[..owned.len()].copy_from_slice(owned);
    let mut r = [0u64; 20];
    r[..rented.len()].copy_from_slice(rented);
    GameAcc {
        acc_type: 2,
        userspace_owner: id(owner),
        owned: AssetSlots { slots: o },
        rented: AssetSlots { slots: r },
    }
}

const DEPOSITOR: u8 = 1;
const TAKER: u8 = 2;
const ESCROW: u8 = 10;
const DEPOSITOR_GAME: u8 = 11;
const TAKER_GAME: u8 = 12;

fn init_data() -> InitEscData {
    InitEscData { amount: 1000, time: 60, asset_id: 42 }
}

fn init_bytes(amount: u64, time: u64, asset_id: u64) -> Vec<u8> {
    let mut bytes = vec![0u8];
    bytes.extend_from_slice(&amount.to_le_bytes());
    bytes.extend_from_slice(&time.to_le_bytes());
    bytes.extend_from_slice(&asset_id.to_le_bytes());
    bytes
}

/// Escrow record, depositor's asset account, depositor: ready for an init.
fn init_accounts() -> Vec<RecordHandle> {
    vec![
        record(ESCROW, RENT + 1000, vec![0u8; 130]),
        record(DEPOSITOR_GAME, RENT, game_acc(DEPOSITOR, &[], &[]).encode()),
        wallet(DEPOSITOR, 5),
    ]
}

fn opened_escrow() -> Escrow {
    Escrow {
        acc_type: 1,
        is_taken: false,
        initialiser_main_acc: id(DEPOSITOR),
        initialiser_game_acc: id(DEPOSITOR_GAME),
        taker_game_acc: id(0),
        esc_taken_time: 0,
        amount: 1000,
        time: 60,
        asset_id: 42,
    }
}

/// Taker, escrow record, depositor's asset account, taker's asset account:
/// ready for a take.
fn take_accounts() -> Vec<RecordHandle> {
    vec![
        wallet(TAKER, 7),
        record(ESCROW, RENT + 1000, opened_escrow().encode()),
        record(DEPOSITOR_GAME, RENT, game_acc(DEPOSITOR, &[3], &[4]).encode()),
        record(TAKER_GAME, RENT, game_acc(TAKER, &[5, 42], &[]).encode()),
    ]
}

fn taken_escrow() -> Escrow {
    Escrow { is_taken: true, taker_game_acc: id(TAKER_GAME), esc_taken_time: T0, ..opened_escrow() }
}

/// Depositor, escrow record, depositor's asset account, taker's asset
/// account, as a take at `T0` leaves them: ready for a reclaim.
fn revert_accounts() -> Vec<RecordHandle> {
    vec![
        wallet(DEPOSITOR, 5),
        record(ESCROW, RENT, taken_escrow().encode()),
        record(DEPOSITOR_GAME, RENT, game_acc(DEPOSITOR, &[3], &[4, 42]).encode()),
        record(TAKER_GAME, RENT, game_acc(TAKER, &[5], &[]).encode()),
    ]
}

fn assert_rejected(
    before: Vec<RecordHandle>,
    why: EscrowError,
    call: impl Fn(&mut Vec<RecordHandle>) -> Result<(), EscrowError>,
) {
    let mut accounts = before.clone();
    assert_eq!(call(&mut accounts), Err(why));
    assert_eq!(accounts, before);
}

fn init(accounts: &mut Vec<RecordHandle>) -> Result<(), EscrowError> {
    Processor::process_init_escrow(&program(), accounts, init_data(), RENT)
}

fn take(accounts: &mut Vec<RecordHandle>) -> Result<(), EscrowError> {
    Processor::process_take_escrow(&program(), accounts, T0)
}

fn revert_at(minutes: i64) -> impl Fn(&mut Vec<RecordHandle>) -> Result<(), EscrowError> {
    move |accounts| Processor::revert(&program(), accounts, T0 + minutes * 60)
}

#[test]
fn init_writes_the_escrow_and_moves_no_funds() {
    let mut accounts = init_accounts();
    assert_eq!(init(&mut accounts), Ok(()));
    assert_eq!(Escrow::unpack_from_slice(&accounts[0].data), Ok(opened_escrow()));
    assert_eq!(accounts[0].lamports, RENT + 1000);
    assert_eq!(accounts[1], init_accounts()[1]);
    assert_eq!(accounts[2], init_accounts()[2]);
    assert_eq!(accounts[0].key, id(ESCROW));
}

#[test]
fn second_init_fails_already_initialized() {
    let mut accounts = init_accounts();
    assert_eq!(init(&mut accounts), Ok(()));
    assert_rejected(accounts, EscrowError::AlreadyInitialized, init);
}

#[test]
fn init_for_asset_zero_fails_and_changes_nothing() {
    let zero = InitEscData { amount: 1000, time: 60, asset_id: 0 };
    assert_rejected(init_accounts(), EscrowError::InvalidInstruction, |accounts| {
        Processor::process_init_escrow(&program(), accounts, zero, RENT)
    });
    assert_rejected(init_accounts(), EscrowError::InvalidInstruction, |accounts| {
        let runtime = Runtime { rent_exempt_minimum: RENT, unix_timestamp: T0 };
        Processor::process_instruction(&program(), accounts, &init_bytes(1000, 60, 0), &runtime)
    });
}

#[test]
fn init_for_asset_zero_fails_last_of_all() {
    let zero = InitEscData { amount: 1000, time: 60, asset_id: 0 };
    let init_zero = |accounts: &mut Vec<RecordHandle>| {
        Processor::process_init_escrow(&program(), accounts, zero, 500)
    };
    assert_rejected(vec![], EscrowError::NotEnoughAccountKeys, init_zero);

    let mut a = init_accounts();
    a[0].is_writable = false;
    assert_rejected(a, EscrowError::MissingPermission, init_zero);

    let mut a = init_accounts();
    a[1].owner = id(0x33);
    assert_rejected(a, EscrowError::IncorrectProgramId, init_zero);

    let mut a = init_accounts();
    a[0].lamports = 1499;
    assert_rejected(a, EscrowError::InsufficientFunds, init_zero);

    // An asset account in the place of the escrow record is never written
    // over, whatever the asset id.
    let mut a = init_accounts();
    a[0].lamports = 1500;
    a[0].data = game_acc(DEPOSITOR, &[7], &[]).encode();
    assert_rejected(a, EscrowError::IncorrectAccountRole, init_zero);

    let mut a = init_accounts();
    a[1].data[0] = 0;
    assert_rejected(a, EscrowError::IncorrectAccountRole, init_zero);

    let mut a = init_accounts();
    a[0].data.truncate(129);
    assert_rejected(a, EscrowError::InvalidLayout, init_zero);

    let mut a = init_accounts();
    a[0].data = opened_escrow().encode();
    assert_rejected(a, EscrowError::AlreadyInitialized, init_zero);

    assert_rejected(init_accounts(), EscrowError::InvalidInstruction, init_zero);
}

#[test]
fn second_init_with_other_terms_fails() {
    let mut accounts = init_accounts();
    assert_eq!(init(&mut accounts), Ok(()));
    let smaller = InitEscData { amount: 1, time: 5, asset_id: 0 };
    assert_rejected(accounts.clone(), EscrowError::AlreadyInitialized, |accounts| {
        Processor::process_init_escrow(&program(), accounts, smaller, RENT)
    });
    let larger = InitEscData { amount: 1001, time: 60, asset_id: 42 };
    assert_rejected(accounts, EscrowError::InsufficientFunds, |accounts| {
        Processor::process_init_escrow(&program(), accounts, larger, RENT)
    });
}

#[test]
fn records_of_another_length_are_invalid_layout() {
    let mut a = init_accounts();
    a[0].data.push(0);
    assert_rejected(a, EscrowError::InvalidLayout, init);

    let mut a = take_accounts();
    a[1].data.push(0);
    assert_rejected(a, EscrowError::InvalidLayout, take);
    for i in [2usize, 3] {
        let mut a = take_accounts();
        a[i].data.extend_from_slice(&[0; 7]);
        assert_rejected(a, EscrowError::InvalidLayout, take);
    }

    let mut a = revert_accounts();
    a[1].data.push(0);
    assert_rejected(a, EscrowError::InvalidLayout, revert_at(61));
    for i in [2usize, 3] {
        let mut a = revert_accounts();
        a[i].data.push(0);
        assert_rejected(a, EscrowError::InvalidLayout, revert_at(61));
    }

    assert_rejected(
        vec![record(DEPOSITOR_GAME, RENT, vec![0u8; 354]), wallet(DEPOSITOR, 1)],
        EscrowError::InvalidLayout,
        |accounts| Processor::process_init_game_acc(&program(), accounts, RENT),
    );

    let mut a = vec![record(TAKER_GAME, RENT, game_acc(TAKER, &[], &[]).encode())];
    a[0].data.push(0);
    assert_rejected(a, EscrowError::InvalidLayout, |accounts| {
        Processor::add_asset(&program(), accounts, 9)
    });
}

#[test]
fn init_rejections_in_order() {
    assert_rejected(vec![], EscrowError::NotEnoughAccountKeys, init);

    let mut a = init_accounts();
    a[0].is_writable = false;
    a.truncate(1);
    assert_rejected(a, EscrowError::MissingPermission, init);

    let mut a = init_accounts();
    a.truncate(1);
    assert_rejected(a, EscrowError::NotEnoughAccountKeys, init);

    let mut a = init_accounts();
    a[1].owner = id(0x33);
    a.truncate(2);
    assert_rejected(a, EscrowError::IncorrectProgramId, init);

    let mut a = init_accounts();
    a[0].owner = id(0x33);
    assert_rejected(a, EscrowError::IncorrectProgramId, init);

    let mut a = init_accounts();
    a.truncate(2);
    assert_rejected(a, EscrowError::NotEnoughAccountKeys, init);

    let mut a = init_accounts();
    a[0].lamports = RENT + 999;
    a[0].data = vec![2u8; 130];
    assert_rejected(a, EscrowError::InsufficientFunds, init);

    let mut a = init_accounts();
    a[0].data = game_acc(DEPOSITOR, &[], &[]).encode();
    assert_rejected(a, EscrowError::IncorrectAccountRole, init);

    let mut a = init_accounts();
    a[1].data = vec![0u8; 353];
    assert_rejected(a, EscrowError::IncorrectAccountRole, init);

    let mut a = init_accounts();
    a[1].data = Vec::new();
    assert_rejected(a, EscrowError::IncorrectAccountRole, init);

    let mut a = init_accounts();
    a[0].data = vec![0u8; 129];
    assert_rejected(a, EscrowError::InvalidLayout, init);

    let mut a = init_accounts();
    a[0].data = Vec::new();
    assert_rejected(a, EscrowError::InvalidLayout, init);

    let mut a = init_accounts();
    a[0].data[0] = 3;
    assert_rejected(a, EscrowError::InvalidKindTag, init);

    let mut a = init_accounts();
    a[0].data[1] = 2;
    assert_rejected(a, EscrowError::InvalidLayout, init);
}

#[test]
fn init_funds_check_does_not_wrap() {
    let mut accounts = init_accounts();
    accounts[0].lamports = u64::MAX;
    let data = InitEscData { amount: u64::MAX, time: 1, asset_id: 42 };
    assert_eq!(
        Processor::process_init_escrow(&program(), &mut accounts, data, RENT),
        Err(EscrowError::InsufficientFunds)
    );
    assert_eq!(Processor::process_init_escrow(&program(), &mut accounts, data, 0), Ok(()));
}

#[test]
fn take_by_a_caller_who_has_not_signed_fails() {
    let mut accounts = take_accounts();
    accounts[0].is_signer = false;
    assert_rejected(accounts, EscrowError::MissingAuthorization, take);
}

#[test]
fn take_moves_the_asset_and_the_funds() {
    let mut accounts = take_accounts();
    assert_eq!(take(&mut accounts), Ok(()));
    assert_eq!(accounts[0].lamports, 1007);
    assert_eq!(accounts[0].data, Vec::<u8>::new());
    assert_eq!(accounts[1].lamports, RENT);
    assert_eq!(Escrow::unpack_from_slice(&accounts[1].data), Ok(taken_escrow()));
    assert_eq!(
        GameAcc::unpack_from_slice(&accounts[2].data),
        Ok(game_acc(DEPOSITOR, &[3], &[4, 42]))
    );
    assert_eq!(GameAcc::unpack_from_slice(&accounts[3].data), Ok(game_acc(TAKER, &[5, 0], &[])));
    assert_eq!(accounts[2].lamports, RENT);
    assert_eq!(accounts[3].lamports, RENT);
    assert_eq!(accounts, revert_accounts_after_take());
}

fn revert_accounts_after_take() -> Vec<RecordHandle> {
    let mut accounts = revert_accounts();
    accounts[0] = wallet(TAKER, 1007);
    accounts
}

#[test]
fn second_take_fails_escrow_already_taken() {
    let mut accounts = take_accounts();
    assert_eq!(take(&mut accounts), Ok(()));
    assert_rejected(accounts, EscrowError::EscrowAlreadyTaken, take);
}

#[test]
fn take_rejections_in_order() {
    assert_rejected(vec![], EscrowError::NotEnoughAccountKeys, take);

    let mut a = take_accounts();
    a.truncate(1);
    assert_rejected(a, EscrowError::NotEnoughAccountKeys, take);

    let mut a = take_accounts();
    a[1].owner = id(0x33);
    assert_rejected(a, EscrowError::IncorrectAccountRole, take);

    let mut a = take_accounts();
    a[1].data = vec![0u8; 130];
    assert_rejected(a, EscrowError::IncorrectAccountRole, take);

    let mut a = take_accounts();
    a[1].data = Vec::new();
    assert_rejected(a, EscrowError::IncorrectAccountRole, take);

    let mut a = take_accounts();
    a[1].data.truncate(100);
    assert_rejected(a, EscrowError::InvalidLayout, take);

    let mut a = take_accounts();
    a[1].data[1] = 9;
    assert_rejected(a, EscrowError::InvalidLayout, take);

    let mut a = take_accounts();
    a.truncate(3);
    assert_rejected(a, EscrowError::NotEnoughAccountKeys, take);

    let mut a = take_accounts();
    a[3].owner = id(0x33);
    a[2].key = id(0x44);
    assert_rejected(a, EscrowError::MissingPermission, take);

    for i in 1..4 {
        let mut a = take_accounts();
        a[i].is_writable = false;
        assert_rejected(a, EscrowError::MissingPermission, take);
    }

    let mut a = take_accounts();
    a[2].key = id(0x44);
    assert_rejected(a, EscrowError::IncorrectAccountRole, take);

    let mut a = take_accounts();
    a[3].data[0] = 0;
    assert_rejected(a, EscrowError::IncorrectAccountRole, take);

    let mut a = take_accounts();
    a[3].data.truncate(352);
    assert_rejected(a, EscrowError::InvalidLayout, take);

    let mut a = take_accounts();
    a[2].data[0] = 1;
    assert_rejected(a, EscrowError::InvalidKindTag, take);

    let mut a = take_accounts();
    a[3].data = game_acc(0x55, &[5, 42], &[]).encode();
    assert_rejected(a, EscrowError::IncorrectAccountRole, take);

    let mut a = take_accounts();
    a[3].data = game_acc(TAKER, &[5], &[42]).encode();
    assert_rejected(a, EscrowError::AssetNotOwnedBySender, take);

    let mut a = take_accounts();
    a[2].data = game_acc(DEPOSITOR, &[], &[9; 20]).encode();
    assert_rejected(a, EscrowError::CapacityExceeded, take);

    let mut a = take_accounts();
    a[0].lamports = u64::MAX - 999;
    assert_rejected(a, EscrowError::AmountOverflow, take);

    let mut a = take_accounts();
    a[1].lamports = 999;
    assert_rejected(a, EscrowError::InsufficientFunds, take);
}

#[test]
fn take_credits_up_to_the_largest_balance() {
    let mut accounts = take_accounts();
    accounts[0].lamports = u64::MAX - 1000;
    accounts[1].lamports = 1000;
    assert_eq!(take(&mut accounts), Ok(()));
    assert_eq!(accounts[0].lamports, u64::MAX);
    assert_eq!(accounts[1].lamports, 0);
}

#[test]
fn reclaim_before_the_window_has_passed_fails() {
    assert_rejected(revert_accounts(), EscrowError::WindowNotElapsed, revert_at(59));
    // The sixtieth minute itself is still inside the window.
    assert_rejected(revert_accounts(), EscrowError::WindowNotElapsed, revert_at(60));
    assert_rejected(revert_accounts(), EscrowError::WindowNotElapsed, revert_at(0));
    assert_rejected(revert_accounts(), EscrowError::WindowNotElapsed, revert_at(-5));
}

#[test]
fn reclaim_after_the_window_returns_funds_and_asset() {
    let mut accounts = revert_accounts();
    assert_eq!(revert_at(61)(&mut accounts), Ok(()));
    assert_eq!(accounts[0].lamports, 5 + RENT);
    assert_eq!(accounts[1].lamports, 0);
    assert_eq!(accounts[1].data, Vec::<u8>::new());
    // The loan is undone: the asset leaves the depositor's rented set and is
    // back in the owned set of the taker, who lent it.
    assert_eq!(GameAcc::unpack_from_slice(&accounts[2].data), Ok(game_acc(DEPOSITOR, &[3], &[4])));
    let taker_game = GameAcc::unpack_from_slice(&accounts[3].data).unwrap();
    assert!(taker_game.owned.contains(42));
    assert_eq!(taker_game, game_acc(TAKER, &[5, 42], &[]));
    assert_eq!(accounts[2].lamports, RENT);
    assert_eq!(accounts[3].lamports, RENT);
}

#[test]
fn reclaim_one_second_after_the_window_succeeds() {
    let mut accounts = revert_accounts();
    assert_eq!(Processor::revert(&program(), &mut accounts, T0 + 3601), Ok(()));
    let mut accounts = revert_accounts();
    assert_eq!(
        Processor::revert(&program(), &mut accounts, T0 + 3600),
        Err(EscrowError::WindowNotElapsed)
    );
}

#[test]
fn reclaim_after_take_leaves_the_asset_once_and_with_its_owner() {
    let mut accounts = vec![
        wallet(TAKER, 7),
        record(ESCROW, RENT + 1000, opened_escrow().encode()),
        record(DEPOSITOR_GAME, RENT, game_acc(DEPOSITOR, &[], &[]).encode()),
        record(TAKER_GAME, RENT, game_acc(TAKER, &[42], &[]).encode()),
    ];
    assert_eq!(Processor::process_take_escrow(&program(), &mut accounts, 1_000_000), Ok(()));
    assert_eq!(GameAcc::unpack_from_slice(&accounts[3].data), Ok(game_acc(TAKER, &[], &[])));
    assert_eq!(GameAcc::unpack_from_slice(&accounts[2].data), Ok(game_acc(DEPOSITOR, &[], &[42])));

    accounts[0] = wallet(DEPOSITOR, 5);
    assert_eq!(Processor::revert(&program(), &mut accounts, 1_003_660), Ok(()));
    assert_eq!(GameAcc::unpack_from_slice(&accounts[3].data), Ok(game_acc(TAKER, &[42], &[])));
    assert_eq!(GameAcc::unpack_from_slice(&accounts[2].data), Ok(game_acc(DEPOSITOR, &[], &[])));
}

#[test]
fn reclaim_tolerates_a_missing_asset_and_drops_it_from_a_full_set() {
    let mut accounts = revert_accounts();
    accounts[2].data = game_acc(DEPOSITOR, &[3], &[8]).encode();
    accounts[3].data = game_acc(TAKER, &[6; 20], &[9]).encode();
    assert_eq!(revert_at(61)(&mut accounts), Ok(()));
    // The depositor no longer rents the asset: nothing to take out.
    assert_eq!(GameAcc::unpack_from_slice(&accounts[2].data), Ok(game_acc(DEPOSITOR, &[3], &[8])));
    // No room in the taker's owned set: the asset is dropped.
    assert_eq!(GameAcc::unpack_from_slice(&accounts[3].data), Ok(game_acc(TAKER, &[6; 20], &[9])));
}

#[test]
fn runtime_read_names_what_the_call_needs() {
    let p = program();
    let read = |accounts: &Vec<RecordHandle>, bytes: &[u8]| Processor::runtime_read(&p, accounts, bytes);
    assert_eq!(read(&init_accounts(), &init_bytes(1000, 60, 42)), Ok(RuntimeRead::RentMinimum(130)));
    let game = vec![record(DEPOSITOR_GAME, RENT, vec![0u8; 353]), wallet(DEPOSITOR, 1)];
    assert_eq!(read(&game, &[3]), Ok(RuntimeRead::RentMinimum(353)));
    assert_eq!(read(&take_accounts(), &[1]), Ok(RuntimeRead::Clock));
    assert_eq!(read(&revert_accounts(), &[2]), Ok(RuntimeRead::Clock));
    let mut add = vec![4u8];
    add.extend_from_slice(&9u64.to_le_bytes());
    assert_eq!(read(&vec![], &add), Ok(RuntimeRead::Nothing));
}

#[test]
fn runtime_read_fails_as_the_call_fails_before_it_asks() {
    let p = program();
    let read = |accounts: &Vec<RecordHandle>, bytes: &[u8]| Processor::runtime_read(&p, accounts, bytes);
    assert_eq!(read(&init_accounts(), &[]), Err(EscrowError::InvalidInstruction));
    // Asset id 0 is found out after the reading.
    assert_eq!(read(&init_accounts(), &init_bytes(1, 1, 0)), Ok(RuntimeRead::RentMinimum(130)));
    assert_eq!(read(&vec![], &init_bytes(1, 1, 1)), Err(EscrowError::NotEnoughAccountKeys));
    let mut a = init_accounts();
    a[1].owner = id(0x33);
    assert_eq!(read(&a, &init_bytes(1, 1, 1)), Err(EscrowError::IncorrectProgramId));
    // What an opening checks after the reading does not stop the reading.
    let mut a = init_accounts();
    a[0].lamports = 0;
    a[0].data = vec![1u8; 7];
    assert_eq!(read(&a, &init_bytes(1, 1, 1)), Ok(RuntimeRead::RentMinimum(7)));

    let mut a = vec![record(DEPOSITOR_GAME, RENT, vec![2u8; 353]), wallet(DEPOSITOR, 1)];
    assert_eq!(read(&a, &[3]), Err(EscrowError::IncorrectAccountRole));
    a[0].data[0] = 0;
    a.truncate(1);
    assert_eq!(read(&a, &[3]), Err(EscrowError::NotEnoughAccountKeys));

    // A taking asks for the time last of all.
    let mut a = take_accounts();
    a[0].lamports = u64::MAX;
    assert_eq!(read(&a, &[1]), Err(EscrowError::AmountOverflow));
    let mut a = take_accounts();
    a[0].is_signer = false;
    assert_eq!(read(&a, &[1]), Err(EscrowError::MissingAuthorization));

    // A reclaim asks for it once the identities have matched.
    let mut a = revert_accounts();
    a[2].key = id(0x44);
    assert_eq!(read(&a, &[2]), Err(EscrowError::IncorrectAccountRole));
    let mut a = revert_accounts();
    a[3].data.truncate(1);
    a[0].lamports = u64::MAX;
    assert_eq!(read(&a, &[2]), Ok(RuntimeRead::Clock));
}

#[test]
fn window_arithmetic_does_not_wrap() {
    assert!(Processor::has_window_elapsed(i64::MIN, 0, i64::MAX));
    assert!(!Processor::has_window_elapsed(i64::MAX, 0, i64::MIN));
    assert!(!Processor::has_window_elapsed(0, u64::MAX, i64::MAX));
    assert!(!Processor::has_window_elapsed(10, 0, 10));
    assert!(Processor::has_window_elapsed(10, 0, 11));
    assert!(!Processor::has_window_elapsed(0, 1, 60));
    assert!(Processor::has_window_elapsed(0, 1, 61));
}

#[test]
fn revert_rejections_in_order() {
    let revert = revert_at(61);
    assert_rejected(vec![], EscrowError::NotEnoughAccountKeys, &revert);

    let mut a = revert_accounts();
    a[0].is_writable = false;
    a.truncate(1);
    assert_rejected(a, EscrowError::MissingPermission, &revert);

    let mut a = revert_accounts();
    a.truncate(1);
    assert_rejected(a, EscrowError::NotEnoughAccountKeys, &revert);

    let mut a = revert_accounts();
    a[1].data[0] = 0;
    assert_rejected(a, EscrowError::InvalidState, &revert);

    let mut a = revert_accounts();
    a[1].data = game_acc(DEPOSITOR, &[], &[]).encode();
    assert_rejected(a, EscrowError::InvalidState, &revert);

    let mut a = revert_accounts();
    a[1].data.truncate(129);
    assert_rejected(a, EscrowError::InvalidLayout, &revert);

    let mut a = revert_accounts();
    a[1].data = opened_escrow().encode();
    a.truncate(2);
    assert_rejected(a, EscrowError::InvalidState, &revert);

    let mut a = revert_accounts();
    a.truncate(3);
    assert_rejected(a, EscrowError::NotEnoughAccountKeys, &revert);

    for i in 1..4 {
        let mut a = revert_accounts();
        a[i].is_writable = false;
        a[1].owner = id(0x33);
        assert_rejected(a, EscrowError::MissingPermission, &revert);
    }

    let mut a = revert_accounts();
    a[1].owner = id(0x33);
    a[2].key = id(0x44);
    assert_rejected(a, EscrowError::IncorrectProgramId, &revert);

    for i in [0usize, 2, 3] {
        let mut a = revert_accounts();
        a[i].key = id(0x44);
        assert_rejected(a, EscrowError::IncorrectAccountRole, revert_at(1));
    }

    let mut a = revert_accounts();
    a[3].data.truncate(10);
    assert_rejected(a, EscrowError::WindowNotElapsed, revert_at(60));

    let mut a = revert_accounts();
    a[3].data.truncate(10);
    assert_rejected(a, EscrowError::InvalidLayout, &revert);

    let mut a = revert_accounts();
    a[2].data[0] = 1;
    assert_rejected(a, EscrowError::InvalidKindTag, &revert);

    let mut a = revert_accounts();
    a[0].lamports = u64::MAX - RENT + 1;
    assert_rejected(a, EscrowError::AmountOverflow, &revert);
}

#[test]
fn init_game_acc_sets_owner_and_kind() {
    let mut accounts = vec![record(DEPOSITOR_GAME, RENT, vec![0u8; 353]), wallet(DEPOSITOR, 1)];
    assert_eq!(Processor::process_init_game_acc(&program(), &mut accounts, RENT), Ok(()));
    assert_eq!(
        GameAcc::unpack_from_slice(&accounts[0].data),
        Ok(game_acc(DEPOSITOR, &[], &[]))
    );
    assert_eq!(accounts[0].lamports, RENT);
    assert_eq!(accounts[1], wallet(DEPOSITOR, 1));
}

#[test]
fn init_game_acc_rejections_in_order() {
    let call = |accounts: &mut Vec<RecordHandle>| {
        Processor::process_init_game_acc(&program(), accounts, RENT)
    };
    let fresh = || vec![record(DEPOSITOR_GAME, RENT, vec![0u8; 353]), wallet(DEPOSITOR, 1)];
    assert_rejected(vec![], EscrowError::NotEnoughAccountKeys, call);

    let mut a = fresh();
    a[0].is_writable = false;
    a[0].owner = id(0x33);
    assert_rejected(a, EscrowError::MissingPermission, call);

    let mut a = fresh();
    a[0].owner = id(0x33);
    a[0].data[0] = 2;
    assert_rejected(a, EscrowError::IncorrectProgramId, call);

    let mut a = fresh();
    a[0].data[0] = 2;
    a.truncate(1);
    assert_rejected(a, EscrowError::IncorrectAccountRole, call);

    let mut a = fresh();
    a[0].data = Vec::new();
    assert_rejected(a, EscrowError::IncorrectAccountRole, call);

    let mut a = fresh();
    a.truncate(1);
    assert_rejected(a, EscrowError::NotEnoughAccountKeys, call);

    let mut a = fresh();
    a[0].lamports = RENT - 1;
    a[0].data.truncate(5);
    assert_rejected(a, EscrowError::InsufficientFunds, call);

    let mut a = fresh();
    a[0].data.truncate(352);
    assert_rejected(a, EscrowError::InvalidLayout, call);
}

#[test]
fn second_init_game_acc_fails() {
    let mut accounts = vec![record(DEPOSITOR_GAME, RENT, vec![0u8; 353]), wallet(DEPOSITOR, 1)];
    assert_eq!(Processor::process_init_game_acc(&program(), &mut accounts, RENT), Ok(()));
    assert_rejected(accounts, EscrowError::IncorrectAccountRole, |accounts| {
        Processor::process_init_game_acc(&program(), accounts, RENT)
    });
}

#[test]
fn add_asset_fills_twenty_slots_and_then_fails() {
    let mut accounts = vec![record(TAKER_GAME, RENT, game_acc(TAKER, &[], &[]).encode())];
    for k in 1..=20u64 {
        assert_eq!(Processor::add_asset(&program(), &mut accounts, 1000 + k), Ok(()));
    }
    let full = GameAcc::unpack_from_slice(&accounts[0].data).unwrap();
    for k in 1..=20u64 {
        assert!(full.owned.contains(1000 + k));
        assert_eq!(full.owned.slots[k as usize - 1], 1000 + k);
    }
    assert_eq!(full.rented, AssetSlots::new());
    assert_rejected(accounts, EscrowError::CapacityExceeded, |accounts| {
        Processor::add_asset(&program(), accounts, 1021)
    });
}

#[test]
fn add_asset_writes_one_slot_only() {
    let mut accounts = vec![record(TAKER_GAME, RENT, game_acc(TAKER, &[0, 5], &[]).encode())];
    assert_eq!(Processor::add_asset(&program(), &mut accounts, 9), Ok(()));
    assert_eq!(GameAcc::unpack_from_slice(&accounts[0].data), Ok(game_acc(TAKER, &[9, 5], &[])));
    // Nothing keeps the same id from being added again.
    assert_eq!(Processor::add_asset(&program(), &mut accounts, 9), Ok(()));
    assert_eq!(GameAcc::unpack_from_slice(&accounts[0].data), Ok(game_acc(TAKER, &[9, 5, 9], &[])));
}

#[test]
fn add_asset_rejections_in_order() {
    let fresh = || vec![record(TAKER_GAME, RENT, game_acc(TAKER, &[], &[]).encode())];
    let add = |accounts: &mut Vec<RecordHandle>| Processor::add_asset(&program(), accounts, 9);

    assert_rejected(vec![], EscrowError::InvalidInstruction, |accounts| {
        Processor::add_asset(&program(), accounts, 0)
    });
    assert_rejected(fresh(), EscrowError::InvalidInstruction, |accounts| {
        Processor::add_asset(&program(), accounts, 0)
    });
    assert_rejected(vec![], EscrowError::NotEnoughAccountKeys, add);

    let mut a = fresh();
    a[0].is_writable = false;
    a[0].owner = id(0x33);
    assert_rejected(a, EscrowError::MissingPermission, add);

    let mut a = fresh();
    a[0].owner = id(0x33);
    a[0].data[0] = 0;
    assert_rejected(a, EscrowError::IncorrectProgramId, add);

    let mut a = fresh();
    a[0].data[0] = 0;
    assert_rejected(a, EscrowError::IncorrectAccountRole, add);

    let mut a = fresh();
    a[0].data = opened_escrow().encode();
    assert_rejected(a, EscrowError::IncorrectAccountRole, add);

    let mut a = fresh();
    a[0].data.truncate(200);
    assert_rejected(a, EscrowError::InvalidLayout, add);
}

#[test]
fn process_instruction_runs_the_whole_exchange() {
    let runtime = |now: i64| Runtime { rent_exempt_minimum: RENT, unix_timestamp: now };
    let p = program();

    // Both players open an asset account; the taker gets asset 42.
    let mut depositor_game = vec![record(DEPOSITOR_GAME, RENT, vec![0u8; 353]), wallet(DEPOSITOR, 5)];
    assert_eq!(Processor::process_instruction(&p, &mut depositor_game, &[3], &runtime(T0)), Ok(()));
    let mut taker_game = vec![record(TAKER_GAME, RENT, vec![0u8; 353]), wallet(TAKER, 7)];
    assert_eq!(Processor::process_instruction(&p, &mut taker_game, &[3], &runtime(T0)), Ok(()));
    let mut add = vec![4u8];
    add.extend_from_slice(&42u64.to_le_bytes());
    taker_game.truncate(1);
    assert_eq!(Processor::process_instruction(&p, &mut taker_game, &add, &runtime(T0)), Ok(()));

    // Init.
    let mut accounts = vec![
        record(ESCROW, RENT + 1000, vec![0u8; 130]),
        depositor_game[0].clone(),
        wallet(DEPOSITOR, 5),
    ];
    let init = init_bytes(1000, 60, 42);
    assert_eq!(Processor::process_instruction(&p, &mut accounts, &init, &runtime(T0)), Ok(()));
    assert_eq!(
        Processor::process_instruction(&p, &mut accounts, &init, &runtime(T0)),
        Err(EscrowError::AlreadyInitialized)
    );

    // Take.
    let mut accounts =
        vec![wallet(TAKER, 7), accounts[0].clone(), accounts[1].clone(), taker_game[0].clone()];
    assert_eq!(Processor::process_instruction(&p, &mut accounts, &[1], &runtime(T0)), Ok(()));
    assert_eq!(accounts[0].lamports, 1007);
    assert_eq!(accounts[1].lamports, RENT);
    assert!(Escrow::unpack_from_slice(&accounts[1].data).unwrap().is_taken);
    assert_eq!(
        Processor::process_instruction(&p, &mut accounts, &[1], &runtime(T0 + 1)),
        Err(EscrowError::EscrowAlreadyTaken)
    );

    // Reclaim: too early at 59 minutes, in time at 61.
    let mut accounts =
        vec![wallet(DEPOSITOR, 5), accounts[1].clone(), accounts[2].clone(), accounts[3].clone()];
    let before = accounts.clone();
    assert_eq!(
        Processor::process_instruction(&p, &mut accounts, &[2], &runtime(T0 + 59 * 60)),
        Err(EscrowError::WindowNotElapsed)
    );
    assert_eq!(accounts, before);
    assert_eq!(
        Processor::process_instruction(&p, &mut accounts, &[2], &runtime(T0 + 61 * 60)),
        Ok(())
    );
    assert_eq!(accounts[0].lamports, 5 + RENT);
    assert_eq!(accounts[1].lamports, 0);
    assert!(accounts[1].data.is_empty());
    assert!(GameAcc::unpack_from_slice(&accounts[3].data).unwrap().owned.contains(42));
    assert!(!GameAcc::unpack_from_slice(&accounts[2].data).unwrap().rented.contains(42));
    assert_eq!(GameAcc::unpack_from_slice(&accounts[3].data).unwrap().encode(), taker_game[0].data);
    assert_eq!(
        GameAcc::unpack_from_slice(&accounts[2].data).unwrap().encode(),
        depositor_game[0].data
    );

    // A retired escrow record is of no further use.
    assert_eq!(
        Processor::process_instruction(&p, &mut accounts, &[2], &runtime(T0 + 62 * 60)),
        Err(EscrowError::InvalidState)
    );
}

#[test]
fn process_instruction_rejects_bad_commands_and_changes_nothing() {
    let runtime = Runtime { rent_exempt_minimum: RENT, unix_timestamp: T0 };
    for bytes in [&[][..], &[9][..], &[0, 1, 2][..], &[4, 1][..]] {
        let mut accounts = init_accounts();
        assert_eq!(
            Processor::process_instruction(&program(), &mut accounts, bytes, &runtime),
            Err(EscrowError::InvalidInstruction)
        );
        assert_eq!(accounts, init_accounts());
    }
    let mut zero = vec![4u8];
    zero.extend_from_slice(&0u64.to_le_bytes());
    let mut accounts = vec![record(TAKER_GAME, RENT, game_acc(TAKER, &[], &[]).encode())];
    assert_eq!(
        Processor::process_instruction(&program(), &mut accounts, &zero, &runtime),
        Err(EscrowError::InvalidInstruction)
    );
}

fn total(accounts: &[RecordHandle]) -> u128 {
    accounts.iter().map(|a| a.lamports as u128).sum()
}

#[test]
fn successful_calls_conserve_funds() {
    let mut accounts = init_accounts();
    assert_eq!(init(&mut accounts), Ok(()));
    assert_eq!(total(&accounts), total(&init_accounts()));

    let mut accounts = take_accounts();
    assert_eq!(take(&mut accounts), Ok(()));
    assert_eq!(total(&accounts), total(&take_accounts()));

    let mut accounts = revert_accounts();
    assert_eq!(revert_at(61)(&mut accounts), Ok(()));
    assert_eq!(total(&accounts), total(&revert_accounts()));
}

#[test]
fn take_neither_makes_nor_loses_an_asset() {
    let mut accounts = take_accounts();
    let held = |accounts: &[RecordHandle]| {
        let depositor = GameAcc::unpack_from_slice(&accounts[2].data).unwrap();
        let taker = GameAcc::unpack_from_slice(&accounts[3].data).unwrap();
        let mut ids: Vec<u64> = depositor
            .rented
            .slots
            .iter()
            .chain(taker.owned.slots.iter())
            .copied()
            .filter(|id| *id != 0)
            .collect();
        ids.sort();
        ids
    };
    let before = held(&accounts);
    assert_eq!(take(&mut accounts), Ok(()));
    assert_eq!(held(&accounts), before);
    assert_eq!(before, vec![4, 5, 42]);
}
