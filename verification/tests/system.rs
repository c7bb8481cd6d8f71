use transaction_processing::{Engine, InputRow};

fn field(record: &csv::StringRecord, column: Option<usize>) -> Option<String> {
    match column {
        Some(index) => record.get(index).map(|text| text.to_string()),
        None => None,
    }
}

fn row_of(record: &csv::StringRecord, columns: &[Option<usize>; 4]) -> Option<InputRow> {
    let transaction_type = field(record, columns[0])?;
    let client_id = field(record, columns[1])?.parse::<u64>().ok()?;
    let transaction_id = field(record, columns[2])?.parse::<u64>().ok()?;
    let amount = field(record, columns[3]).filter(|text| !text.is_empty());
    Some(InputRow { transaction_type, client_id, transaction_id, amount })
}

fn run_with_csv(csv: &str) -> String {
    let mut reader = csv::ReaderBuilder::new()
        .trim(csv::Trim::All)
        .flexible(true)
        .from_reader(csv.as_bytes());
    let headers = reader.headers().expect("headers").clone();
    let column = |name: &str| headers.iter().position(|header| header == name);
    let columns = [column("type"), column("client"), column("tx"), column("amount")];

    let mut engine = Engine::new();
    for record in reader.records() {
        if let Ok(record) = record {
            if let Some(row) = row_of(&record, &columns) {
                engine.apply(row);
            }
        }
    }

    let mut writer = csv::Writer::from_writer(Vec::new());
    writer
        .write_record(["client", "available", "held", "total", "locked"])
        .expect("write header");
    for snapshot in engine.report() {
        let row = snapshot.to_row().expect("amounts have text");
        writer
            .write_record([
                row.client_id.to_string(),
                row.available,
                row.held,
                row.total,
                row.locked.to_string(),
            ])
            .expect("write row");
    }
    String::from_utf8(writer.into_inner().expect("flush")).expect("stdout not utf8")
}

#[test]
fn runs_sample_input_csv() {
    let csv = "\
type,client,tx,amount
deposit,1,1,1.0
deposit,2,2,2.0
deposit,1,3,2.0
withdrawal,1,4,1.5
withdrawal,2,5,3.0
";
    let stdout = run_with_csv(csv);
    let expected = "\
client,available,held,total,locked
1,1.5,0,1.5,false
2,2.0,0,2.0,false
";
    assert_eq!(stdout, expected);
}

#[test]
fn resolve_restores_funds() {
    let csv = "\
type,client,tx,amount
deposit,1,1,100
dispute,1,1,
resolve,1,1,
";
    let stdout = run_with_csv(csv);
    let expected = "\
client,available,held,total,locked
1,100,0,100,false
";
    assert_eq!(stdout, expected);
}

#[test]
fn chargeback_locks_and_blocks_new_tx() {
    let csv = "\
type,client,tx,amount
deposit,1,1,10
dispute,1,1,
chargeback,1,1,
deposit,1,2,5
withdrawal,1,3,1
";
    let stdout = run_with_csv(csv);
    let expected = "\
client,available,held,total,locked
1,0,0,0,true
";
    assert_eq!(stdout, expected);
}

#[test]
fn dispute_left_unresolved_keeps_funds_held() {
    let csv = "\
type,client,tx,amount
deposit,1,1,10
withdrawal,1,2,3
dispute,1,1,
";
    let stdout = run_with_csv(csv);
    let expected = "\
client,available,held,total,locked
1,-3,10,7,false
";
    assert_eq!(stdout, expected);
}

#[test]
fn duplicate_transaction_ids_are_ignored() {
    let csv = "\
type,client,tx,amount
deposit,1,1,10
withdrawal,1,1,5
deposit,2,1,3
";
    let stdout = run_with_csv(csv);
    let expected = "\
client,available,held,total,locked
1,10,0,10,false
";
    assert_eq!(stdout, expected);
}

#[test]
fn client_id_mismatch_dispute_is_ignored() {
    let csv = "\
type,client,tx,amount
deposit,1,1,10
dispute,2,1,
";
    let stdout = run_with_csv(csv);
    let expected = "\
client,available,held,total,locked
1,10,0,10,false
";
    assert_eq!(stdout, expected);
}

#[test]
fn repeat_disputes_after_first_are_ignored() {
    let csv = "\
type,client,tx,amount
deposit,1,1,5
dispute,1,1,
dispute,1,1,
";
    let stdout = run_with_csv(csv);
    let expected = "\
client,available,held,total,locked
1,0,5,5,false
";
    assert_eq!(stdout, expected);
}

#[test]
fn resolve_without_dispute_is_ignored() {
    let csv = "\
type,client,tx,amount
deposit,1,1,5
resolve,1,1,
";
    let stdout = run_with_csv(csv);
    let expected = "\
client,available,held,total,locked
1,5,0,5,false
";
    assert_eq!(stdout, expected);
}

#[test]
fn chargeback_without_dispute_is_ignored() {
    let csv = "\
type,client,tx,amount
deposit,1,1,5
chargeback,1,1,
";
    let stdout = run_with_csv(csv);
    let expected = "\
client,available,held,total,locked
1,5,0,5,false
";
    assert_eq!(stdout, expected);
}

#[test]
fn unknown_transaction_commands_are_ignored() {
    let csv = "\
type,client,tx,amount
dispute,1,42,
resolve,1,42,
chargeback,1,42,
";
    let stdout = run_with_csv(csv);
    let expected = "\
client,available,held,total,locked
";
    assert_eq!(stdout, expected);
}

#[test]
fn wrong_client_resolve_or_chargeback_is_ignored() {
    let csv = "\
type,client,tx,amount
deposit,1,1,5
dispute,1,1,
resolve,2,1,
chargeback,2,1,
";
    let stdout = run_with_csv(csv);
    let expected = "\
client,available,held,total,locked
1,0,5,5,false
";
    assert_eq!(stdout, expected);
}

#[test]
fn locked_account_blocks_all_followups() {
    let csv = "\
type,client,tx,amount
deposit,1,1,10
dispute,1,1,
chargeback,1,1,
deposit,1,2,5
withdrawal,1,3,1
dispute,1,2,
resolve,1,1,
";
    let stdout = run_with_csv(csv);
    let expected = "\
client,available,held,total,locked
1,0,0,0,true
";
    assert_eq!(stdout, expected);
}

#[test]
fn dispute_on_withdrawal_is_ignored() {
    let csv = "\
type,client,tx,amount
deposit,1,1,10
withdrawal,1,2,3
dispute,2,1,
";
    let stdout = run_with_csv(csv);
    let expected = "\
client,available,held,total,locked
1,7,0,7,false
";
    assert_eq!(stdout, expected);
}

#[test]
fn locked_client_does_not_block_others() {
    let csv = "\
type,client,tx,amount
deposit,1,1,10
dispute,1,1,
chargeback,1,1,
deposit,2,2,5
withdrawal,2,3,2
";
    let stdout = run_with_csv(csv);
    let expected = "\
client,available,held,total,locked
1,0,0,0,true
2,3,0,3,false
";
    assert_eq!(stdout, expected);
}

#[test]
fn malformed_rows_are_ignored() {
    let csv = "\
type,client,tx,amount
deposit,1,1,5
deposit,1,2,   \n\
withdrawal,1,3,1.5
";
    let stdout = run_with_csv(csv);
    let expected = "\
client,available,held,total,locked
1,3.5,0,3.5,false
";
    assert_eq!(stdout, expected);
}
