use csfx::rows::{
    agent_row, bootstrap_limits, count_label, node_row, role_row, token_row, user_row,
    BootstrapToken, NodeAgent, RegistryAgent,
};
use csfx::table::Table;

fn reference_lines(headers: &[&str], rows: &[Vec<String>]) -> Vec<String> {
    let mut widths: Vec<usize> = headers.iter().map(|h| h.len()).collect();
    for row in rows {
        for (i, cell) in row.iter().enumerate() {
            if i < widths.len() {
                widths[i] = widths[i].max(cell.len());
            }
        }
    }
    let mut out = Vec::new();
    out.push(
        headers
            .iter()
            .enumerate()
            .map(|(i, h)| format!("{:<w$}", h, w = widths[i]))
            .collect::<Vec<_>>()
            .join("   "),
    );
    out.push(widths.iter().map(|&w| "-".repeat(w)).collect::<Vec<_>>().join("   "));
    for row in rows {
        out.push(
            row.iter()
                .enumerate()
                .map(|(i, cell)| {
                    let w = widths.get(i).copied().unwrap_or(cell.len());
                    format!("{:<w$}", cell, w = w)
                })
                .collect::<Vec<_>>()
                .join("   "),
        );
    }
    out
}

fn row(cells: &[&str]) -> Vec<String> {
    cells.iter().map(|c| c.to_string()).collect()
}

#[test]
fn new_table_is_empty() {
    let t = Table::new(vec!["ID", "NAME"]);
    assert!(t.is_empty());
    assert_eq!(t.col_widths(), vec![2, 4]);
}

#[test]
fn add_row_widens_columns() {
    let mut t = Table::new(vec!["ID", "NAME"]);
    t.add_row(row(&["12345", "a"]));
    assert!(!t.is_empty());
    assert_eq!(t.col_widths(), vec![5, 4]);
    t.add_row(row(&["1", "longer name", "extra"]));
    assert_eq!(t.col_widths(), vec![5, 11]);
    assert_eq!(t.header_line(), "ID      NAME       ");
    assert_eq!(t.separator_line(), "-----   -----------");
    assert_eq!(t.padded_row(1), row(&["1    ", "longer name", "extra"]));
}

#[test]
fn lines_match_reference_rendering() {
    let headers = ["ID", "HOSTNAME", "STATUS"];
    let rows = vec![
        row(&["a", "höst", "online"]),
        row(&["bbbbbbbbbb", "", "offline", "ünder"]),
        row(&["c"]),
        row(&[]),
    ];
    let mut t = Table::new(headers.to_vec());
    for r in &rows {
        t.add_row(r.clone());
    }
    assert_eq!(t.lines(), reference_lines(&headers, &rows));
}

#[test]
fn node_rows() {
    let a = NodeAgent {
        id: "0123456789abcdef".to_string(),
        hostname: "node-1".to_string(),
        ip_address: None,
        os_type: "NixOS".to_string(),
        os_version: "24.05".to_string(),
        architecture: "x86_64".to_string(),
        agent_version: "0.3.1".to_string(),
        status: "online".to_string(),
        last_heartbeat: Some("2024-05-01T12:34:56Z".to_string()),
    };
    assert_eq!(
        node_row(&a),
        row(&["01234567", "node-1", "-", "NixOS 24.05", "x86_64", "0.3.1", "online", "2024-05-01T12:34"])
    );
    let b = NodeAgent { ip_address: Some("10.0.0.2".to_string()), last_heartbeat: None, ..a };
    let r = node_row(&b);
    assert_eq!(r[2], "10.0.0.2");
    assert_eq!(r[7], "never");
}

#[test]
fn registry_and_token_rows() {
    let a = RegistryAgent {
        id: "abcdefgh-1234".to_string(),
        name: "n".to_string(),
        hostname: "h".to_string(),
        ip_address: Some("1.2.3.4".to_string()),
        agent_version: "1".to_string(),
        os_type: "linux".to_string(),
        architecture: "arm64".to_string(),
        status: "offline".to_string(),
        last_heartbeat: None,
        registered_at: "2024".to_string(),
    };
    assert_eq!(agent_row(&a), row(&["abcdefgh", "h", "1.2.3.4", "linux", "arm64", "1", "offline"]));
    let t = BootstrapToken {
        id: "tok-0001-xyz".to_string(),
        token: "secret".to_string(),
        description: None,
        created_by: "admin".to_string(),
        expires_at: "2025-01-01".to_string(),
        max_uses: 1000,
        use_count: -3,
        revoked: true,
    };
    assert_eq!(token_row(&t), row(&["tok-0001", "-", "admin", "-3/1000", "2025-01-01", "yes"]));
    assert_eq!(bootstrap_limits(None, None), (720, 1000));
    assert_eq!(bootstrap_limits(Some(5), Some(2)), (5, 2));
}

#[test]
fn tenant_rows() {
    assert_eq!(
        role_row(Some("0123456789"), Some("admin"), None, Some(true)),
        row(&["01234567...", "admin", "-", "yes"])
    );
    assert_eq!(role_row(None, None, None, None), row(&["-...", "-", "-", "no"]));
    assert_eq!(
        user_row(Some("ü12"), Some("bob"), Some("b@x"), Some("viewer"), Some(true), Some("2024-05-01T00:00")),
        row(&["ü12...", "bob", "b@x", "viewer", "on", "2024-05-01"])
    );
    assert_eq!(user_row(None, None, None, None, Some(false), None), row(&["-...", "-", "-", "-", "off", "-"]));
}

#[test]
fn count_labels() {
    assert_eq!(count_label(3, "node"), "3 node(s)");
    assert_eq!(count_label(0, "bootstrap token"), "0 bootstrap token(s)");
}

#[test]
fn columns_line_up() {
    let mut t = Table::new(vec!["ID", "HOSTNAME", "STATUS"]);
    t.add_row(row(&["a1", "web-1.internal", "online"]));
    t.add_row(row(&["b22222", "db", "offline"]));
    t.add_row(row(&["c", "", "x"]));
    let widths = t.col_widths();
    assert_eq!(widths, vec![6, 14, 7]);
    let lines = t.lines();
    let total: usize = widths.iter().sum::<usize>() + 3 * (widths.len() - 1);
    let starts = [0, 6 + 3, 6 + 3 + 14 + 3];
    for line in &lines {
        assert_eq!(line.len(), total);
        for j in 0..2 {
            assert_eq!(&line[starts[j] + widths[j]..starts[j + 1]], "   ");
        }
    }
    assert_eq!(&lines[0][starts[1]..starts[1] + widths[1]], "HOSTNAME      ");
    assert_eq!(&lines[1][starts[2]..starts[2] + widths[2]], "-------");
    assert_eq!(&lines[2][starts[1]..starts[1] + widths[1]], "web-1.internal");
    assert_eq!(&lines[4][starts[2]..starts[2] + widths[2]], "x      ");
}
