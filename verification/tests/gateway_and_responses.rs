use order_cache::config::{parse_port, Config, VarError, DEFAULT_PORT};
use order_cache::data::Order;
use order_cache::db::{create_order, get_order, OrderRow, StorageFailure};
use order_cache::errors::{ErrorResponse, OrderApiError};
use order_cache::responses::{OrderApiResponse, Response, ResponseBody};

fn order(uid: &str, payload: &str) -> Order {
    Order { order_uid: uid.to_string(), payload: payload.to_string() }
}

#[test]
fn lookup_without_row_is_not_found() {
    assert_eq!(get_order(Ok(None)), Err(OrderApiError::NotFound));
}

#[test]
fn lookup_stamps_the_row_identifier() {
    let row = OrderRow { order_uid: "A".to_string(), body: Ok(order("stale", "doc")) };
    assert_eq!(get_order(Ok(Some(row))), Ok(order("A", "doc")));
}

#[test]
fn lookup_passes_failures_on() {
    assert_eq!(
        get_order(Err(StorageFailure::Pool("timed out".to_string()))),
        Err(OrderApiError::DBPoolError("timed out".to_string()))
    );
    assert_eq!(
        get_order(Err(StorageFailure::Query("syntax".to_string()))),
        Err(OrderApiError::DBQueryError("syntax".to_string()))
    );
    let row = OrderRow { order_uid: "A".to_string(), body: Err("not an object".to_string()) };
    assert_eq!(
        get_order(Ok(Some(row))),
        Err(OrderApiError::SerDeError("not an object".to_string()))
    );
}

#[test]
fn insert_yields_the_returned_identifier() {
    assert_eq!(create_order(Ok("A".to_string())), Ok("A".to_string()));
    assert_eq!(
        create_order(Err(StorageFailure::Pool("busy".to_string()))),
        Err(OrderApiError::DBPoolError("busy".to_string()))
    );
    assert_eq!(
        create_order(Err(StorageFailure::Query("duplicate key".to_string()))),
        Err(OrderApiError::DBQueryError("duplicate key".to_string()))
    );
    assert_eq!(
        StorageFailure::Pool("x".to_string()).into_error(),
        OrderApiError::DBPoolError("x".to_string())
    );
}

#[test]
fn error_responses() {
    let cases = vec![
        (OrderApiError::DBPoolError("timed out".to_string()), 500, "Database pool error: timed out"),
        (OrderApiError::DBQueryError("closed".to_string()), 500, "Database query error: closed"),
        (OrderApiError::NotFound, 404, "The requested resource was not found!"),
        (OrderApiError::InternalServerError, 500, "Internal server error!"),
        (OrderApiError::SerDeError("eof".to_string()), 500, "Internal server error!"),
        (OrderApiError::DBCreatingManagerError("bad url".to_string()), 500, "Internal server error!"),
        (OrderApiError::DBCreatingPoolError("refused".to_string()), 500, "Internal server error!"),
    ];
    for (error, status, message) in cases {
        assert_eq!(
            error.into_response(),
            ErrorResponse { status, message: message.to_string() }
        );
    }
}

#[test]
fn error_descriptions() {
    let cases = vec![
        (
            OrderApiError::DBCreatingManagerError("bad url".to_string()),
            "Error to create connection manager: bad url",
        ),
        (OrderApiError::DBCreatingPoolError("refused".to_string()), "Error to create db pool: refused"),
        (
            OrderApiError::DBPoolError("timed out".to_string()),
            "Error getting connection from DB pool: timed out",
        ),
        (OrderApiError::DBQueryError("closed".to_string()), "Database query error: closed"),
        (OrderApiError::NotFound, "Not found"),
        (OrderApiError::InternalServerError, "Internal server error"),
        (OrderApiError::SerDeError("eof".to_string()), "Serde error: eof"),
    ];
    for (error, text) in cases {
        assert_eq!(error.to_string(), text.to_string());
    }
}

#[test]
fn success_responses() {
    assert_eq!(
        OrderApiResponse::Data(order("A", "doc")).into_response(),
        Response { status: 200, body: ResponseBody::Document(order("A", "doc")) }
    );
    assert_eq!(
        OrderApiResponse::DataFromCache(order("A", "doc")).into_response(),
        Response { status: 200, body: ResponseBody::Document(order("A", "doc")) }
    );
    assert_eq!(
        OrderApiResponse::Created("A".to_string()).into_response(),
        Response { status: 201, body: ResponseBody::Identifier("A".to_string()) }
    );
}

#[test]
fn port_numbers() {
    assert_eq!(parse_port("8080"), Some(8080));
    assert_eq!(parse_port("0"), Some(0));
    assert_eq!(parse_port("65535"), Some(65535));
    assert_eq!(parse_port("65536"), None);
    assert_eq!(parse_port("+80"), Some(80));
    assert_eq!(parse_port("000080"), Some(80));
    assert_eq!(parse_port("00000000000000000000065535"), Some(65535));
    assert_eq!(parse_port(""), None);
    assert_eq!(parse_port("+"), None);
    assert_eq!(parse_port("++80"), None);
    assert_eq!(parse_port("-80"), None);
    assert_eq!(parse_port(" 80"), None);
    assert_eq!(parse_port("80 "), None);
    assert_eq!(parse_port("8o"), None);
    assert_eq!(parse_port("８０"), None);
    assert_eq!(parse_port("99999999999999999999"), None);
}

#[test]
fn port_numbers_are_those_of_the_standard_parser() {
    let texts = [
        "", "+", "-", "0", "+0", "-0", "1", "80", "8000", "08000", "65535", "65536", "065536",
        "70000", "4294967296", "+65535", "+65536", "++1", "+-1", "1+", "12a", "a12", " 12", "12 ",
        "1 2", "1_000", "0x50", "١٢", "1.0", "1e3", "\n80",
    ];
    for text in texts {
        assert_eq!(parse_port(text), text.parse::<u16>().ok(), "text {:?}", text);
    }
    for n in 0..=70000u32 {
        let text = n.to_string();
        assert_eq!(parse_port(&text), text.parse::<u16>().ok());
    }
}

#[test]
fn configuration_from_values() {
    let config = Config::from_env(
        Ok("postgres://db".to_string()),
        Ok("0.0.0.0".to_string()),
        Ok("3000".to_string()),
    );
    assert_eq!(
        config,
        Ok(Config {
            database_url: "postgres://db".to_string(),
            service_address: "0.0.0.0".to_string(),
            service_port: 3000,
        })
    );
}

#[test]
fn configuration_defaults_the_port() {
    assert_eq!(DEFAULT_PORT, 8000);
    for text in ["", "http", "65536", "-1"] {
        let config =
            Config::from_env(Ok("db".to_string()), Ok("host".to_string()), Ok(text.to_string()));
        assert_eq!(config.unwrap().service_port, 8000);
    }
}

#[test]
fn configuration_reports_the_first_missing_variable() {
    let ok = || Ok("value".to_string());
    assert_eq!(
        Config::from_env(Err(VarError::NotPresent), Err(VarError::NotUnicode), ok()),
        Err(VarError::NotPresent)
    );
    assert_eq!(
        Config::from_env(ok(), Err(VarError::NotUnicode), Err(VarError::NotPresent)),
        Err(VarError::NotUnicode)
    );
    assert_eq!(Config::from_env(ok(), ok(), Err(VarError::NotPresent)), Err(VarError::NotPresent));
    assert_eq!(
        Config::from_env(Err(VarError::NotUnicode), ok(), ok()),
        Err(VarError::NotUnicode)
    );
}
