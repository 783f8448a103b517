use cosmos_coins::abci::{MsgData, TxMsgData};
use cosmos_coins::any::Any;
use cosmos_coins::auth::BaseAccount;
use cosmos_coins::errors::Error;

#[test]
fn tx_msg_data_refuses_responses() {
    let data = vec![MsgData { msg_type: "/cosmos.bank.v1beta1.MsgSend".to_string(), data: vec![1] }];
    let made = TxMsgData::from_parts(data.clone(), vec![]).unwrap();
    assert_eq!(made.data, data);
    assert!(made.msg_responses.is_empty());
    let response = Any { type_url: "/x".to_string(), value: vec![] };
    assert_eq!(TxMsgData::from_parts(data, vec![response]), Err(Error::TxMsgDataUnsupported));
}

#[test]
fn base_account_keeps_its_fields() {
    let key = Any { type_url: "/cosmos.crypto.secp256k1.PubKey".to_string(), value: vec![2, 3] };
    let account = BaseAccount::new("cosmos1abc".to_string(), Some(key.clone()), 7, 9);
    assert_eq!(account.address, "cosmos1abc");
    assert_eq!(account.pub_key, Some(key));
    assert_eq!(account.account_number, 7);
    assert_eq!(account.sequence, 9);
}
